use vstd::prelude::*;

use crate::config::{validation_problem, JvmsConfiguration};
use crate::error::{ErrorView, JvmsError};
use crate::path::{JvmsPath, Part, PathView};

verus! {

/// The directory that holds the binary, one entry per tool, and the
/// configuration file.
#[derive(Debug, Clone, PartialEq, Eq)]
pub struct JvmsInstallation {
    installation_path: JvmsPath,
}

impl View for JvmsInstallation {
    type V = PathView;

    closed spec fn view(&self) -> PathView {
        self.installation_path@
    }
}

/// Where the configuration file of the installation at `dir` lies.
pub open spec fn config_file_of(dir: PathView) -> PathView {
    PathView { absolute: dir.absolute, parts: dir.parts.push(Part::Normal("jvms.conf"@)) }
}

impl JvmsInstallation {
    pub fn new(installation_path: JvmsPath) -> (r: JvmsInstallation)
        ensures
            r@ == installation_path@,
    {
        JvmsInstallation { installation_path }
    }

    pub fn get_installation_path(&self) -> (r: &JvmsPath)
        ensures
            r@ == self@,
    {
        &self.installation_path
    }

    /// The configuration file, `jvms.conf` in the installation directory.
    pub fn get_config_file_path(&self) -> (r: JvmsPath)
        ensures
            r@ == config_file_of(self@),
    {
        self.installation_path.child("jvms.conf".to_owned())
    }

    /// Decides whether `config` may be written, and where. Unless `force` is
    /// set, a configuration that breaks a rule is refused with that rule;
    /// `homes_exist` is as for `validate_configuration`.
    pub fn prepare_save(
        &self,
        config: &JvmsConfiguration,
        force: bool,
        homes_exist: &Vec<bool>,
    ) -> (r: Result<JvmsPath, JvmsError>)
        requires
            config.wf(),
            homes_exist@.len() == config@.toolchains.len(),
        ensures
            force ==> (r matches Ok(p) && p@ == config_file_of(self@)),
            !force ==> match validation_problem(config@, homes_exist@) {
                None => r matches Ok(p) && p@ == config_file_of(self@),
                Some(q) => r matches Err(e) && e@ == ErrorView::InvalidConfiguration(q),
            },
    {
        if !force {
            config.validate_configuration(homes_exist)?;
        }
        Ok(self.get_config_file_path())
    }
}

} // verus!
