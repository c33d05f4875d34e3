use vstd::prelude::*;

verus! {

/// A hardware codec as mounted into the application.
#[derive(Debug)]
pub struct CodecPeripheral {
    pub name: String,
    pub supported_codecs: Vec<String>,
    pub device_nodes: Vec<String>,
}

/// The runtime descriptor reads back every field of the configuration model.
pub open spec fn codec_matches(r: CodecPeripheral, m: crate::models::CodecPeripheral) -> bool {
    &&& r.name@ == m.name@
    &&& r.supported_codecs@ == m.supported_codecs@
    &&& r.device_nodes@ == m.device_nodes@
}

impl CodecPeripheral {
    pub fn from_model(m: &crate::models::CodecPeripheral) -> (r: CodecPeripheral)
        ensures
            codec_matches(r, *m),
    {
        CodecPeripheral {
            name: m.name.clone(),
            supported_codecs: crate::peripherals::clone_strings(&m.supported_codecs),
            device_nodes: crate::peripherals::clone_strings(&m.device_nodes),
        }
    }
}

} // verus!
