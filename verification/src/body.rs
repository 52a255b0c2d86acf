use vstd::prelude::*;
use rustc_serialize::json::{Json, PrettyJson};
use vstd::string::StringSliceAdditionalSpecFns;

verus! {

/// Something that can be sent as the body of a response.
///
/// `writes` is the relation an implementation promises between it and the
/// bytes it writes; one that does not define it promises nothing of them.
pub trait Body {
    open spec fn writes(&self, out: Seq<u8>) -> bool {
        true
    }

    /// Appends the bytes of this body to `dest`.
    fn write_to(&self, dest: &mut Vec<u8>)
        ensures
            exists|out: Seq<u8>| #[trigger] self.writes(out) && final(dest)@ == old(dest)@ + out,
    ;
}

/// Appends `bytes` to `dest`.
pub fn push_bytes(dest: &mut Vec<u8>, bytes: &[u8])
    ensures
        final(dest)@ == old(dest)@ + bytes@,
{
    let mut i: usize = 0;
    while i < bytes.len()
        invariant
            i <= bytes@.len(),
            dest@ == old(dest)@ + bytes@.take(i as int),
        decreases bytes@.len() - i,
    {
        dest.push(bytes[i]);
        i = i + 1;
    }
}

impl<'a> Body for &'a str {
    open spec fn writes(&self, out: Seq<u8>) -> bool {
        out == (**self).spec_bytes()
    }

    fn write_to(&self, dest: &mut Vec<u8>) {
        push_bytes(dest, (*self).as_bytes());
        assert(self.writes((**self).spec_bytes()));
    }
}

impl Body for String {
    open spec fn writes(&self, out: Seq<u8>) -> bool {
        out == vstd::utf8::encode_utf8(self@)
    }

    fn write_to(&self, dest: &mut Vec<u8>) {
        let s = self.as_str();
        push_bytes(dest, s.as_bytes());
        assert(self.writes(s.spec_bytes()));
    }
}

impl<'a, T: Body> Body for &'a T {
    open spec fn writes(&self, out: Seq<u8>) -> bool {
        (**self).writes(out)
    }

    fn write_to(&self, dest: &mut Vec<u8>) {
        let ghost before = dest@;
        (**self).write_to(dest);
        proof {
            let out = choose|out: Seq<u8>| (**self).writes(out) && dest@ == before + out;
            assert(self.writes(out));
        }
    }
}

#[verifier::external_type_specification]
#[verifier::external_body]
pub struct ExJson(Json);

#[verifier::external_type_specification]
#[verifier::external_body]
pub struct ExPrettyJson<'a>(PrettyJson<'a>);

/// The text that `rustc_serialize::json::Json`'s `Display` writes for `j`.
/// It is a function of the value alone: an object keeps its members in a
/// sorted map, and numbers are formatted the same way every time.
pub uninterp spec fn json_text_of(j: Json) -> Seq<char>;

/// The text that `rustc_serialize::json::PrettyJson`'s `Display` writes for
/// `j`, the indented form of the value that it wraps.
pub uninterp spec fn pretty_json_text_of(j: PrettyJson) -> Seq<char>;

/// The JSON text of `j`, as `Json`'s `Display` writes it; the result is the
/// text named `json_text_of`. Encoding a `Json` cannot fail, as an object's
/// keys are strings.
#[verifier::external_body]
fn json_text(j: &Json) -> (text: String)
    ensures
        text@ == json_text_of(*j),
{
    format!("{}", j)
}

/// The indented JSON text of `j`, as `PrettyJson`'s `Display` writes it; the
/// result is the text named `pretty_json_text_of`.
#[verifier::external_body]
fn pretty_json_text(j: &PrettyJson) -> (text: String)
    ensures
        text@ == pretty_json_text_of(*j),
{
    format!("{}", j)
}

/// A JSON value is sent as the UTF-8 encoding of its text.
impl Body for Json {
    open spec fn writes(&self, out: Seq<u8>) -> bool {
        out == vstd::utf8::encode_utf8(json_text_of(*self))
    }

    fn write_to(&self, dest: &mut Vec<u8>) {
        let text = json_text(self);
        let s = text.as_str();
        push_bytes(dest, s.as_bytes());
        assert(self.writes(s.spec_bytes()));
    }
}

/// An indented JSON value is sent as the UTF-8 encoding of its text.
impl<'a> Body for PrettyJson<'a> {
    open spec fn writes(&self, out: Seq<u8>) -> bool {
        out == vstd::utf8::encode_utf8(pretty_json_text_of(*self))
    }

    fn write_to(&self, dest: &mut Vec<u8>) {
        let text = pretty_json_text(self);
        let s = text.as_str();
        push_bytes(dest, s.as_bytes());
        assert(self.writes(s.spec_bytes()));
    }
}

} // verus!
