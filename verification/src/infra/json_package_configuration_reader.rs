use vstd::prelude::*;

verus! {

pub open spec fn components_view(components: Seq<String>) -> Seq<Seq<char>> {
    components.map_values(|c: String| c@)
}

/// The views of path components keep every component, in order.
pub proof fn law_components_view_keeps_every_component(components: Seq<String>)
    ensures
        components_view(components).len() == components.len(),
        forall|i: int| 0 <= i < components.len() ==> #[trigger] components_view(components)[i] == components[i]@,
{
}

/// Reads the configuration of a package from the JSON file of a fixed name in
/// its directory, and tells whether the package has a build script for its
/// foreign function interface.  A path is the sequence of its components.
#[derive(Clone, Debug, PartialEq, Eq)]
pub struct JsonPackageConfigurationReader {
    build_configuration_filename: String,
    ffi_build_script_basename: String,
}

impl JsonPackageConfigurationReader {
    pub closed spec fn build_configuration_filename_view(&self) -> Seq<char> {
        self.build_configuration_filename@
    }

    pub closed spec fn ffi_build_script_basename_view(&self) -> Seq<char> {
        self.ffi_build_script_basename@
    }

    pub fn new(build_configuration_filename: String, ffi_build_script_basename: String) -> (r: Self)
        ensures
            r.build_configuration_filename_view() == build_configuration_filename@,
            r.ffi_build_script_basename_view() == ffi_build_script_basename@,
    {
        JsonPackageConfigurationReader { build_configuration_filename, ffi_build_script_basename }
    }

    /// The path of the configuration file of the package in
    /// `package_directory`: the directory joined with the file name.
    pub fn configuration_file_path(&self, package_directory: &[String]) -> (r: Vec<String>)
        ensures
            components_view(r@) == components_view(package_directory@).push(
                self.build_configuration_filename_view(),
            ),
    {
        let mut r: Vec<String> = Vec::new();
        let n = package_directory.len();
        let mut i: usize = 0;
        while i < n
            invariant
                n == package_directory@.len(),
                i <= n,
                components_view(r@) == components_view(package_directory@).take(i as int),
            decreases n - i,
        {
            let ghost before = r@;
            r.push(package_directory[i].clone());
            assert(components_view(r@) =~= components_view(before).push(package_directory@[i as int]@));
            assert(components_view(package_directory@).take(i + 1) =~= components_view(
                package_directory@,
            ).take(i as int).push(package_directory@[i as int]@));
            i = i + 1;
        }
        assert(components_view(package_directory@).take(n as int) =~= components_view(package_directory@));
        let ghost before = r@;
        r.push(self.build_configuration_filename.clone());
        assert(components_view(r@) =~= components_view(before).push(self.build_configuration_filename@));
        r
    }

    /// The base name (without extension) of the build script for the foreign
    /// function interface of a package.
    pub fn ffi_build_script_basename(&self) -> (r: &str)
        ensures
            r@ == self.ffi_build_script_basename_view(),
    {
        self.ffi_build_script_basename.as_str()
    }
}

} // verus!
