//! The YAML boundary: parsing a document string is delegated to the
//! `yaml-rust` crate behind trusted declarations. The parsed value is
//! opaque here; callers turn it into this crate's `Document` form at the
//! input edge.

use vstd::prelude::*;

verus! {

#[verifier::external_type_specification]
#[verifier::external_body]
pub struct ExYaml(yaml_rust::Yaml);

/// Relies on `yaml_rust::YamlLoader::load_from_str`: scans a string into
/// its sequence of YAML documents, or fails on malformed input; the scan
/// error is rendered as text.
#[verifier::external_body]
fn yaml_load_docs(s: &str) -> Result<Vec<yaml_rust::Yaml>, String> {
    match yaml_rust::YamlLoader::load_from_str(s) {
        Ok(docs) => Ok(docs),
        Err(e) => Err(format!("{}", e)),
    }
}

/// Parse a YAML string and hand back its first document. A string that
/// does not scan, or holds no document at all, is an error carrying a
/// message.
pub fn load_yaml_string(s: &str) -> Result<yaml_rust::Yaml, String> {
    match yaml_load_docs(s) {
        Ok(mut docs) => {
            if docs.len() == 0 {
                let mut m = String::new();
                m.append("failed to load yaml: empty document");
                Err(m)
            } else {
                Ok(docs.remove(0))
            }
        },
        Err(msg) => {
            let mut m = String::new();
            m.append("failed to load yaml: ");
            m.append(msg.as_str());
            Err(m)
        },
    }
}

} // verus!
