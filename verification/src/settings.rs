//! The application's stored settings and where VRChat keeps its pictures.
use vstd::prelude::*;

verus! {

/// The settings that the application stores between runs.
#[derive(Debug, Clone, PartialOrd, PartialEq)]
pub struct SettingsData {
    vrchat_pictures_path: String,
}

impl SettingsData {
    /// The folder in which VRChat saves its pictures.
    pub closed spec fn pictures_path(&self) -> Seq<char> {
        self.vrchat_pictures_path@
    }

    /// Settings with the given pictures folder.
    pub fn new(vrchat_pictures_path: String) -> (res: Self)
        ensures
            res.pictures_path() == vrchat_pictures_path@,
    {
        SettingsData { vrchat_pictures_path }
    }

    /// The folder in which VRChat saves its pictures.
    pub fn vrchat_pictures_path(&self) -> (res: &String)
        ensures
            res@ == self.pictures_path(),
    {
        &self.vrchat_pictures_path
    }
}

/// Chooses where VRChat's pictures are: the folder inside the Proton prefix
/// of Steam's VRChat install where it exists, otherwise `VRChat` in the
/// user's pictures folder (`user_vrchat_dir`).
pub fn find_vrchat_pictures_dir(
    proton_vrchat_dir: String,
    proton_dir_exists: bool,
    user_vrchat_dir: Option<String>,
) -> (res: String)
    requires
        proton_dir_exists || user_vrchat_dir is Some,
    ensures
        res@ == if proton_dir_exists {
            proton_vrchat_dir@
        } else {
            user_vrchat_dir.unwrap()@
        },
{
    if proton_dir_exists {
        proton_vrchat_dir
    } else {
        user_vrchat_dir.unwrap()
    }
}

} // verus!
