//! Start-with-Windows setting: the `reg` invocation that adds or removes the
//! client under the current user's `Run` key.

use vstd::prelude::*;

verus! {

/// Registry key of the programs started at logon.
pub const RUN_KEY: &'static str = "HKCU\\Software\\Microsoft\\Windows\\CurrentVersion\\Run";

/// Name of the value under the `Run` key.
pub const APP_NAME: &'static str = "PezMax";

/// Mathematical form of a list of arguments.
pub open spec fn args_view(v: Seq<String>) -> Seq<Seq<char>> {
    v.map_values(|s: String| s@)
}

/// Arguments of `reg` for the setting: adding the executable path when the
/// setting is on (nothing to do without a path), deleting the value when off.
pub fn auto_launch_args(enable: bool, exe: Option<&str>) -> (r: Option<Vec<String>>)
    ensures
        enable && exe is None ==> r is None,
        enable && exe is Some ==> (r matches Some(v) && args_view(v@) == seq![
            "add"@, RUN_KEY@, "/v"@, APP_NAME@, "/t"@, "REG_SZ"@, "/d"@, exe->0@, "/f"@,
        ]),
        !enable ==> (r matches Some(v) && args_view(v@) == seq!["delete"@, RUN_KEY@, "/v"@, APP_NAME@, "/f"@]),
{
    if enable {
        match exe {
            Some(e) => {
                let v = vec![
                    "add".to_string(),
                    RUN_KEY.to_string(),
                    "/v".to_string(),
                    APP_NAME.to_string(),
                    "/t".to_string(),
                    "REG_SZ".to_string(),
                    "/d".to_string(),
                    e.to_string(),
                    "/f".to_string(),
                ];
                assert(args_view(v@) =~= seq!["add"@, RUN_KEY@, "/v"@, APP_NAME@, "/t"@, "REG_SZ"@, "/d"@, e@, "/f"@]);
                Some(v)
            },
            None => None,
        }
    } else {
        let v = vec![
            "delete".to_string(),
            RUN_KEY.to_string(),
            "/v".to_string(),
            APP_NAME.to_string(),
            "/f".to_string(),
        ];
        assert(args_view(v@) =~= seq!["delete"@, RUN_KEY@, "/v"@, APP_NAME@, "/f"@]);
        Some(v)
    }
}

} // verus!
