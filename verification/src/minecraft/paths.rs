//! Where an instance's game files live.
use vstd::prelude::*;

use crate::config::{join_path, path_join, resolved_path, Config, PathError};

verus! {

/// The game directory of the instance `instance_id`, in the instances
/// directory of `config`.
pub fn instance_game_dir(config: &Config, base: &str, windows: bool, instance_id: &str) -> (r: Result<String, PathError>)
    ensures
        match resolved_path(config.install_dir@, base@, windows) {
            Ok(install) => r matches Ok(p) && p@ == path_join(path_join(install, instance_id@), "game"@),
            Err(e) => r == Err::<String, PathError>(e),
        },
{
    let install = match config.resolved_install_dir(base, windows) {
        Ok(d) => d,
        Err(e) => return Err(e),
    };
    let dir = join_path(install.as_str(), instance_id);
    Ok(join_path(dir.as_str(), "game"))
}

} // verus!
