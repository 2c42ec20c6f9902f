use vstd::prelude::*;
use vstd::string::StringSliceAdditionalSpecFns;

use super::error::gives;
use super::{
    Target,
    TextFormat,
};

verus! {

/// The format that a conversion reads.
#[derive(Debug, Clone, Copy, PartialEq, Eq, Structural)]
pub enum InputFormat {
    Text(TextFormat),
    Cbor,
}

/// What `serde_transcode::transcode` writes when it reads the bytes `input` in
/// the format `from` and writes them as `to`: the bytes written, or the message
/// of the error that stopped the reader or the writer.
pub uninterp spec fn transcoded(from: InputFormat, to: Target, input: Seq<u8>) -> Result<Seq<u8>, Seq<char>>;

/// The message with which RON's deserializer refuses to start on the bytes
/// `input` (an unclosed comment, a malformed extension attribute), if it does.
pub uninterp spec fn ron_refusal(input: Seq<u8>) -> Option<Seq<char>>;

/// Starts RON's deserializer on `text`: the message of its refusal, if any.
///
/// Calls `ron::Deserializer::from_bytes`; the contract names the message of
/// its error, or that there is none.
#[verifier::external_body]
pub(crate) fn ron_start(text: &str) -> (r: Option<String>)
    ensures
        match (r, ron_refusal(text.spec_bytes())) {
            (None, None) => true,
            (Some(m), Some(e)) => m@ == e,
            _ => false,
        },
{
    match ron::Deserializer::from_bytes(text.as_bytes()) {
        Ok(_) => None,
        Err(e) => Some(format!("{:?}", e)),
    }
}

/// Reads `text` as RON and writes it as RON.
///
/// Calls `serde_transcode::transcode` from the RON deserializer of its crate
/// to the RON serializer of its crate, into a byte vector; the contract
/// names what it writes, or the message of its error.
#[verifier::external_body]
fn ron_to_ron(text: &str) -> (r: Result<Vec<u8>, String>)
    ensures
        gives(r, transcoded(InputFormat::Text(TextFormat::Ron), Target::Ron, text.spec_bytes())),
{
    let mut out = Vec::new();
    let mut de = match ron::Deserializer::from_bytes(text.as_bytes()) {
        Ok(de) => de,
        Err(e) => return Err(format!("{:?}", e)),
    };
    let done = match ron::Serializer::new(&mut out, Some(ron::ser::PrettyConfig::new()), true) {
        Ok(mut ser) => serde_transcode::transcode(&mut de, &mut ser),
        Err(e) => Err(e),
    };
    match done {
        Ok(_) => Ok(out),
        Err(e) => Err(format!("{:?}", e)),
    }
}

/// Reads `text` as RON and writes it as JSON.
///
/// Calls `serde_transcode::transcode` from the RON deserializer of its crate
/// to the JSON serializer of its crate, into a byte vector; the contract
/// names what it writes, or the message of its error.
#[verifier::external_body]
fn ron_to_json(text: &str) -> (r: Result<Vec<u8>, String>)
    ensures
        gives(r, transcoded(InputFormat::Text(TextFormat::Ron), Target::Json, text.spec_bytes())),
{
    let mut out = Vec::new();
    let mut de = match ron::Deserializer::from_bytes(text.as_bytes()) {
        Ok(de) => de,
        Err(e) => return Err(format!("{:?}", e)),
    };
    let done = serde_transcode::transcode(&mut de, &mut serde_json::Serializer::new(&mut out));
    match done {
        Ok(_) => Ok(out),
        Err(e) => Err(format!("{:?}", e)),
    }
}

/// Reads `text` as RON and writes it as YAML.
///
/// Calls `serde_transcode::transcode` from the RON deserializer of its crate
/// to the YAML serializer of its crate, into a byte vector; the contract
/// names what it writes, or the message of its error.
#[verifier::external_body]
fn ron_to_yaml(text: &str) -> (r: Result<Vec<u8>, String>)
    ensures
        gives(r, transcoded(InputFormat::Text(TextFormat::Ron), Target::Yaml, text.spec_bytes())),
{
    let mut out = Vec::new();
    let mut de = match ron::Deserializer::from_bytes(text.as_bytes()) {
        Ok(de) => de,
        Err(e) => return Err(format!("{:?}", e)),
    };
    let done = serde_transcode::transcode(&mut de, &mut serde_yaml::Serializer::new(&mut out));
    match done {
        Ok(_) => Ok(out),
        Err(e) => Err(format!("{:?}", e)),
    }
}

/// Reads `text` as JSON and writes it as RON.
///
/// Calls `serde_transcode::transcode` from the JSON deserializer of its crate
/// to the RON serializer of its crate, into a byte vector; the contract
/// names what it writes, or the message of its error.
#[verifier::external_body]
fn json_to_ron(text: &str) -> (r: Result<Vec<u8>, String>)
    ensures
        gives(r, transcoded(InputFormat::Text(TextFormat::Json), Target::Ron, text.spec_bytes())),
{
    let mut out = Vec::new();
    let mut de = serde_json::Deserializer::from_slice(text.as_bytes());
    let done = match ron::Serializer::new(&mut out, Some(ron::ser::PrettyConfig::new()), true) {
        Ok(mut ser) => serde_transcode::transcode(&mut de, &mut ser),
        Err(e) => Err(e),
    };
    match done {
        Ok(_) => Ok(out),
        Err(e) => Err(format!("{:?}", e)),
    }
}

/// Reads `text` as JSON and writes it as JSON.
///
/// Calls `serde_transcode::transcode` from the JSON deserializer of its crate
/// to the JSON serializer of its crate, into a byte vector; the contract
/// names what it writes, or the message of its error.
#[verifier::external_body]
fn json_to_json(text: &str) -> (r: Result<Vec<u8>, String>)
    ensures
        gives(r, transcoded(InputFormat::Text(TextFormat::Json), Target::Json, text.spec_bytes())),
{
    let mut out = Vec::new();
    let mut de = serde_json::Deserializer::from_slice(text.as_bytes());
    let done = serde_transcode::transcode(&mut de, &mut serde_json::Serializer::new(&mut out));
    match done {
        Ok(_) => Ok(out),
        Err(e) => Err(format!("{:?}", e)),
    }
}

/// Reads `text` as JSON and writes it as YAML.
///
/// Calls `serde_transcode::transcode` from the JSON deserializer of its crate
/// to the YAML serializer of its crate, into a byte vector; the contract
/// names what it writes, or the message of its error.
#[verifier::external_body]
fn json_to_yaml(text: &str) -> (r: Result<Vec<u8>, String>)
    ensures
        gives(r, transcoded(InputFormat::Text(TextFormat::Json), Target::Yaml, text.spec_bytes())),
{
    let mut out = Vec::new();
    let mut de = serde_json::Deserializer::from_slice(text.as_bytes());
    let done = serde_transcode::transcode(&mut de, &mut serde_yaml::Serializer::new(&mut out));
    match done {
        Ok(_) => Ok(out),
        Err(e) => Err(format!("{:?}", e)),
    }
}

/// Reads `text` as YAML and writes it as RON.
///
/// Calls `serde_transcode::transcode` from the YAML deserializer of its crate
/// to the RON serializer of its crate, into a byte vector; the contract
/// names what it writes, or the message of its error.
#[verifier::external_body]
fn yaml_to_ron(text: &str) -> (r: Result<Vec<u8>, String>)
    ensures
        gives(r, transcoded(InputFormat::Text(TextFormat::Yaml), Target::Ron, text.spec_bytes())),
{
    let mut out = Vec::new();
    let de = serde_yaml::Deserializer::from_slice(text.as_bytes());
    let done = match ron::Serializer::new(&mut out, Some(ron::ser::PrettyConfig::new()), true) {
        Ok(mut ser) => serde_transcode::transcode(de, &mut ser),
        Err(e) => Err(e),
    };
    match done {
        Ok(_) => Ok(out),
        Err(e) => Err(format!("{:?}", e)),
    }
}

/// Reads `text` as YAML and writes it as JSON.
///
/// Calls `serde_transcode::transcode` from the YAML deserializer of its crate
/// to the JSON serializer of its crate, into a byte vector; the contract
/// names what it writes, or the message of its error.
#[verifier::external_body]
fn yaml_to_json(text: &str) -> (r: Result<Vec<u8>, String>)
    ensures
        gives(r, transcoded(InputFormat::Text(TextFormat::Yaml), Target::Json, text.spec_bytes())),
{
    let mut out = Vec::new();
    let de = serde_yaml::Deserializer::from_slice(text.as_bytes());
    let done = serde_transcode::transcode(de, &mut serde_json::Serializer::new(&mut out));
    match done {
        Ok(_) => Ok(out),
        Err(e) => Err(format!("{:?}", e)),
    }
}

/// Reads `text` as YAML and writes it as YAML.
///
/// Calls `serde_transcode::transcode` from the YAML deserializer of its crate
/// to the YAML serializer of its crate, into a byte vector; the contract
/// names what it writes, or the message of its error.
#[verifier::external_body]
fn yaml_to_yaml(text: &str) -> (r: Result<Vec<u8>, String>)
    ensures
        gives(r, transcoded(InputFormat::Text(TextFormat::Yaml), Target::Yaml, text.spec_bytes())),
{
    let mut out = Vec::new();
    let de = serde_yaml::Deserializer::from_slice(text.as_bytes());
    let done = serde_transcode::transcode(de, &mut serde_yaml::Serializer::new(&mut out));
    match done {
        Ok(_) => Ok(out),
        Err(e) => Err(format!("{:?}", e)),
    }
}

/// Reads `text` as TOML and writes it as RON.
///
/// Calls `serde_transcode::transcode` from the TOML deserializer of its crate
/// to the RON serializer of its crate, into a byte vector; the contract
/// names what it writes, or the message of its error.
#[verifier::external_body]
fn toml_to_ron(text: &str) -> (r: Result<Vec<u8>, String>)
    ensures
        gives(r, transcoded(InputFormat::Text(TextFormat::Toml), Target::Ron, text.spec_bytes())),
{
    let mut out = Vec::new();
    let mut de = toml::Deserializer::new(text);
    let done = match ron::Serializer::new(&mut out, Some(ron::ser::PrettyConfig::new()), true) {
        Ok(mut ser) => serde_transcode::transcode(&mut de, &mut ser),
        Err(e) => Err(e),
    };
    match done {
        Ok(_) => Ok(out),
        Err(e) => Err(format!("{:?}", e)),
    }
}

/// Reads `text` as TOML and writes it as JSON.
///
/// Calls `serde_transcode::transcode` from the TOML deserializer of its crate
/// to the JSON serializer of its crate, into a byte vector; the contract
/// names what it writes, or the message of its error.
#[verifier::external_body]
fn toml_to_json(text: &str) -> (r: Result<Vec<u8>, String>)
    ensures
        gives(r, transcoded(InputFormat::Text(TextFormat::Toml), Target::Json, text.spec_bytes())),
{
    let mut out = Vec::new();
    let mut de = toml::Deserializer::new(text);
    let done = serde_transcode::transcode(&mut de, &mut serde_json::Serializer::new(&mut out));
    match done {
        Ok(_) => Ok(out),
        Err(e) => Err(format!("{:?}", e)),
    }
}

/// Reads `text` as TOML and writes it as YAML.
///
/// Calls `serde_transcode::transcode` from the TOML deserializer of its crate
/// to the YAML serializer of its crate, into a byte vector; the contract
/// names what it writes, or the message of its error.
#[verifier::external_body]
fn toml_to_yaml(text: &str) -> (r: Result<Vec<u8>, String>)
    ensures
        gives(r, transcoded(InputFormat::Text(TextFormat::Toml), Target::Yaml, text.spec_bytes())),
{
    let mut out = Vec::new();
    let mut de = toml::Deserializer::new(text);
    let done = serde_transcode::transcode(&mut de, &mut serde_yaml::Serializer::new(&mut out));
    match done {
        Ok(_) => Ok(out),
        Err(e) => Err(format!("{:?}", e)),
    }
}

/// Reads the CBOR `bytes` and writes them as RON.
///
/// Calls `serde_transcode::transcode` from the CBOR deserializer of
/// `serde_cbor` to the RON serializer of its crate, into a byte vector; the
/// contract names what it writes, or the message of its error.
#[verifier::external_body]
fn cbor_to_ron(bytes: Vec<u8>) -> (r: Result<Vec<u8>, String>)
    ensures
        gives(r, transcoded(InputFormat::Cbor, Target::Ron, bytes@)),
{
    let mut bytes = bytes;
    let mut out = Vec::new();
    let mut de = serde_cbor::Deserializer::from_mut_slice(&mut bytes);
    let done = match ron::Serializer::new(&mut out, Some(ron::ser::PrettyConfig::new()), true) {
        Ok(mut ser) => serde_transcode::transcode(&mut de, &mut ser),
        Err(e) => Err(e),
    };
    match done {
        Ok(_) => Ok(out),
        Err(e) => Err(format!("{:?}", e)),
    }
}

/// Reads the CBOR `bytes` and writes them as JSON.
///
/// Calls `serde_transcode::transcode` from the CBOR deserializer of
/// `serde_cbor` to the JSON serializer of its crate, into a byte vector; the
/// contract names what it writes, or the message of its error.
#[verifier::external_body]
fn cbor_to_json(bytes: Vec<u8>) -> (r: Result<Vec<u8>, String>)
    ensures
        gives(r, transcoded(InputFormat::Cbor, Target::Json, bytes@)),
{
    let mut bytes = bytes;
    let mut out = Vec::new();
    let mut de = serde_cbor::Deserializer::from_mut_slice(&mut bytes);
    let done = serde_transcode::transcode(&mut de, &mut serde_json::Serializer::new(&mut out));
    match done {
        Ok(_) => Ok(out),
        Err(e) => Err(format!("{:?}", e)),
    }
}

/// Reads the CBOR `bytes` and writes them as YAML.
///
/// Calls `serde_transcode::transcode` from the CBOR deserializer of
/// `serde_cbor` to the YAML serializer of its crate, into a byte vector; the
/// contract names what it writes, or the message of its error.
#[verifier::external_body]
fn cbor_to_yaml(bytes: Vec<u8>) -> (r: Result<Vec<u8>, String>)
    ensures
        gives(r, transcoded(InputFormat::Cbor, Target::Yaml, bytes@)),
{
    let mut bytes = bytes;
    let mut out = Vec::new();
    let mut de = serde_cbor::Deserializer::from_mut_slice(&mut bytes);
    let done = serde_transcode::transcode(&mut de, &mut serde_yaml::Serializer::new(&mut out));
    match done {
        Ok(_) => Ok(out),
        Err(e) => Err(format!("{:?}", e)),
    }
}

/// Reads `text` in the format `f` and writes it as `t`.
pub(crate) fn text_to(f: TextFormat, t: Target, text: &str) -> (r: Result<Vec<u8>, String>)
    ensures
        gives(r, transcoded(InputFormat::Text(f), t, text.spec_bytes())),
{
    match (f, t) {
        (TextFormat::Ron, Target::Ron) => ron_to_ron(text),
        (TextFormat::Ron, Target::Json) => ron_to_json(text),
        (TextFormat::Ron, Target::Yaml) => ron_to_yaml(text),
        (TextFormat::Json, Target::Ron) => json_to_ron(text),
        (TextFormat::Json, Target::Json) => json_to_json(text),
        (TextFormat::Json, Target::Yaml) => json_to_yaml(text),
        (TextFormat::Yaml, Target::Ron) => yaml_to_ron(text),
        (TextFormat::Yaml, Target::Json) => yaml_to_json(text),
        (TextFormat::Yaml, Target::Yaml) => yaml_to_yaml(text),
        (TextFormat::Toml, Target::Ron) => toml_to_ron(text),
        (TextFormat::Toml, Target::Json) => toml_to_json(text),
        (TextFormat::Toml, Target::Yaml) => toml_to_yaml(text),
    }
}

/// Reads the CBOR `bytes` and writes them as `t`.
pub(crate) fn cbor_to(t: Target, bytes: Vec<u8>) -> (r: Result<Vec<u8>, String>)
    ensures
        gives(r, transcoded(InputFormat::Cbor, t, bytes@)),
{
    match t {
        Target::Ron => cbor_to_ron(bytes),
        Target::Json => cbor_to_json(bytes),
        Target::Yaml => cbor_to_yaml(bytes),
    }
}

} // verus!
