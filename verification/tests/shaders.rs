use wgpu_learning::rend::shader::Shader;
use wgpu_learning::renderer_backend::pipeline::Shader as BackendShader;

#[test]
fn shader_imports_in_source_order() {
    let source = "import(\"common.wgsl\")\nfn vs_main() {}\r\n  import(\"lights\")\r\n";
    let shader = Shader::from_source(source);
    assert_eq!(shader.imports, vec!["common.wgsl".to_string(), "lights".to_string()]);
    assert_eq!(shader.contents, source);
    assert_eq!(shader.vertex_entry, "vs_main");
    assert_eq!(shader.fragment_entry, "fs_main");
}

#[test]
fn shader_without_imports() {
    let shader = Shader::from_source("@vertex fn vs_main() {}\n@fragment fn fs_main() {}");
    assert!(shader.imports.is_empty());
}

#[test]
fn shader_of_empty_source() {
    let shader = Shader::from_source("");
    assert!(shader.imports.is_empty());
    assert_eq!(shader.contents, "");
}

#[test]
fn first_import_of_a_line_counts() {
    let shader = Shader::from_source("import(\"a.b\") import(\"c\")\nimport(\"d\")");
    assert_eq!(shader.imports, vec!["a.b".to_string(), "d".to_string()]);
}

#[test]
fn malformed_imports_are_skipped() {
    let shader = Shader::from_source("import(\"\")\nimport(\"a-b\")\nimport(x)\nimport(\"ok_1\")\n");
    assert_eq!(shader.imports, vec!["ok_1".to_string()]);
}

#[test]
fn import_names_may_use_unicode_word_characters() {
    let shader = Shader::from_source("// import(\"brûlée.wgsl\")");
    assert_eq!(shader.imports, vec!["brûlée.wgsl".to_string()]);
}

#[test]
fn import_split_over_lines_is_not_an_import() {
    let shader = Shader::from_source("import(\"a\nb\")");
    assert!(shader.imports.is_empty());
}

#[test]
fn default_shader_is_empty() {
    let shader = Shader::default();
    assert!(shader.imports.is_empty());
    assert_eq!(shader.contents, "");
    assert_eq!(shader.vertex_entry, "");
    assert_eq!(shader.fragment_entry, "");
}

#[test]
fn backend_shader_entry_points() {
    let shader = BackendShader::with_contents("fn vs_main() {}".to_string());
    assert_eq!(shader.contents, "fn vs_main() {}");
    assert_eq!(shader.vertex_entry, "vs_main");
    assert_eq!(shader.fragment_entry, "fs_main");
    let empty = BackendShader::default();
    assert_eq!(empty.contents, "");
    assert_eq!(empty.vertex_entry, "");
}
