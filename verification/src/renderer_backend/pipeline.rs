use vstd::prelude::*;

verus! {

/// A shader program's WGSL source and the names of its entry points.
pub struct Shader {
    pub contents: String,
    pub vertex_entry: String,
    pub fragment_entry: String,
}

impl Shader {
    /// The shader whose source is `contents`, with entry points `vs_main` and `fs_main`.
    pub fn with_contents(contents: String) -> (shader: Shader)
        ensures
            shader.contents@ == contents@,
            shader.vertex_entry@ == "vs_main"@,
            shader.fragment_entry@ == "fs_main"@,
    {
        Shader { contents, vertex_entry: "vs_main".to_owned(), fragment_entry: "fs_main".to_owned() }
    }
}

impl Default for Shader {
    /// An empty shader: no source and no entry points.
    fn default() -> (shader: Shader)
        ensures
            shader.contents@ == Seq::<char>::empty(),
            shader.vertex_entry@ == Seq::<char>::empty(),
            shader.fragment_entry@ == Seq::<char>::empty(),
    {
        Shader { contents: String::new(), vertex_entry: String::new(), fragment_entry: String::new() }
    }
}

} // verus!
