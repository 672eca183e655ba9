//! Where the tray keeps its files, as the platform layer sees it.

use vstd::prelude::*;

use crate::host::HostOs;
use crate::paths::{
    bin_dir, config_dir, core_binary_name, core_binary_path, display_name, path_join,
    profile_display_name, APP_DIR_NAME,
};

verus! {

pub trait PathLayout {
    spec fn home(&self) -> Seq<char>;

    spec fn core_name(&self) -> Seq<char>;

    /// The tray's data directory.
    fn config_dir(&self) -> (r: String)
        ensures
            r@ == self.home(),
    ;

    /// Where the core binary lives.
    fn bin_dir(&self) -> (r: String)
        ensures
            r@ == path_join(self.home(), "bin"@),
    ;

    fn core_binary_path(&self) -> (r: String)
        ensures
            r@ == path_join(path_join(self.home(), "bin"@), self.core_name()),
    ;

    /// The name a profile is shown under.
    fn profile_display_name(&self, path: &str) -> (r: String)
        ensures
            r@ == display_name(path@),
    ;
}

/// The layout under the platform data directory (`dirs::data_dir`).
#[derive(Debug, Clone)]
pub struct DefaultPathLayout {
    pub data_dir: String,
    pub host: HostOs,
}

impl PathLayout for DefaultPathLayout {
    open spec fn home(&self) -> Seq<char> {
        path_join(self.data_dir@, APP_DIR_NAME@)
    }

    open spec fn core_name(&self) -> Seq<char> {
        core_binary_name(self.host)
    }

    fn config_dir(&self) -> (r: String) {
        config_dir(self.data_dir.as_str())
    }

    fn bin_dir(&self) -> (r: String) {
        let c = config_dir(self.data_dir.as_str());
        bin_dir(c.as_str())
    }

    fn core_binary_path(&self) -> (r: String) {
        let c = config_dir(self.data_dir.as_str());
        core_binary_path(c.as_str(), self.host)
    }

    fn profile_display_name(&self, path: &str) -> (r: String) {
        profile_display_name(path)
    }
}

pub fn create_path_layout(data_dir: String, host: HostOs) -> (r: DefaultPathLayout)
    ensures
        r.data_dir@ == data_dir@,
        r.host == host,
{
    DefaultPathLayout { data_dir, host }
}

} // verus!
