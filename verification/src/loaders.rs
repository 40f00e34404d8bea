//! The kinds of asset files, told apart by their extension.

use vstd::prelude::*;

verus! {

/// Reads the configuration, from files that end in `cfg`.
pub struct ConfigLoader {}

/// Reads meshes, from files that end in `mesh`.
pub struct MeshLoader {}

/// Reads pictures, from files that end in `png`.
pub struct ImageLoader {}

impl ConfigLoader {
    /// The extension of configuration files.
    pub fn get_extension(&self) -> (extension: String)
        ensures
            extension@ == "cfg"@,
    {
        "cfg".to_owned()
    }

    /// Whether a file with this extension is the loader's to read.
    pub fn accepts(&self, extension: &String) -> (mine: bool)
        ensures
            mine == (extension@ == "cfg"@),
    {
        *extension == self.get_extension()
    }
}

impl MeshLoader {
    /// The extension of mesh files.
    pub fn get_extension_static() -> (extension: String)
        ensures
            extension@ == "mesh"@,
    {
        "mesh".to_owned()
    }

    /// The extension of mesh files.
    pub fn get_extension(&self) -> (extension: String)
        ensures
            extension@ == "mesh"@,
    {
        Self::get_extension_static()
    }

    /// Whether a file with this extension is the loader's to read.
    pub fn accepts(&self, extension: &String) -> (mine: bool)
        ensures
            mine == (extension@ == "mesh"@),
    {
        *extension == self.get_extension()
    }
}

impl ImageLoader {
    /// The extension of picture files.
    pub fn get_extension(&self) -> (extension: String)
        ensures
            extension@ == "png"@,
    {
        "png".to_owned()
    }

    /// Whether a file with this extension is the loader's to read.
    pub fn accepts(&self, extension: &String) -> (mine: bool)
        ensures
            mine == (extension@ == "png"@),
    {
        *extension == self.get_extension()
    }
}

impl Default for ConfigLoader {
    fn default() -> ConfigLoader {
        ConfigLoader {  }
    }
}

impl Default for MeshLoader {
    fn default() -> MeshLoader {
        MeshLoader {  }
    }
}

impl Default for ImageLoader {
    fn default() -> ImageLoader {
        ImageLoader {  }
    }
}

} // verus!
