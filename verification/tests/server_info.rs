use rustus::server_info::server_info;
use rustus::server_info::Extension;

#[test]
fn test_server_info() {
    let extensions = vec![Extension::Creation, Extension::Concatenation, Extension::Termination];
    let info = server_info(&extensions);
    assert!(info.extensions.contains("creation"));
    assert!(info.extensions.contains("concatenation"));
    assert!(info.extensions.contains("termination"));
}

#[test]
fn test_capability_rendering_without_checksum() {
    let extensions = vec![Extension::Creation, Extension::Termination];
    let info = server_info(&extensions);
    assert_eq!(info.extensions, "creation,termination");
    assert!(info.checksum_algorithms.is_none());
}

#[test]
fn test_capability_rendering_with_checksum() {
    let extensions = vec![Extension::Creation, Extension::Termination, Extension::Checksum];
    let info = server_info(&extensions);
    assert_eq!(info.extensions, "creation,termination,checksum");
    assert_eq!(info.checksum_algorithms.as_deref(), Some("md5,sha1,sha256,sha512"));
}

#[test]
fn test_rendering_is_order_stable() {
    let extensions = vec![Extension::Termination, Extension::Creation];
    let info = server_info(&extensions);
    assert_eq!(info.extensions, "termination,creation");
}

#[test]
fn test_no_extensions_renders_empty() {
    let extensions: Vec<Extension> = Vec::new();
    let info = server_info(&extensions);
    assert_eq!(info.extensions, "");
    assert!(info.checksum_algorithms.is_none());
}

#[test]
fn test_extension_names() {
    assert_eq!(Extension::Creation.name(), "creation");
    assert_eq!(Extension::CreationWithUpload.name(), "creation-with-upload");
    assert_eq!(Extension::CreationDeferLength.name(), "creation-defer-length");
    assert_eq!(Extension::Termination.name(), "termination");
    assert_eq!(Extension::Concatenation.name(), "concatenation");
    assert_eq!(Extension::Getting.name(), "getting");
    assert_eq!(Extension::Checksum.name(), "checksum");
}
