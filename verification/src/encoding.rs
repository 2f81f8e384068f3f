use vstd::prelude::*;

verus! {

#[verifier::external_type_specification]
#[verifier::external_body]
pub struct ExEncoding(encoding_rs::Encoding);

/// The canonical encoding name that `encoding_rs::Encoding::for_label`
/// assigns to a label, if the label is in the WHATWG table: a pure function
/// of the label's characters.
pub uninterp spec fn label_lookup(label: Seq<char>) -> Option<Seq<char>>;

/// What `encoding_rs::Encoding::decode` (with BOM sniffing) decodes `bytes`
/// to under the encoding whose canonical name is `name`: a pure function of
/// the two, with malformed sequences replaced by U+FFFD.
pub uninterp spec fn decoded_text(name: Seq<char>, bytes: Seq<u8>) -> Seq<char>;

/// The canonical name of the encoding a label resolves to, with the fallback
/// the library applies everywhere: an unrecognized label means UTF-8.
pub open spec fn resolved_label_name(label: Seq<char>) -> Seq<char> {
    match label_lookup(label) {
        Some(name) => name,
        None => "UTF-8"@,
    }
}

/// Decoding stays clear of the internal buffer-size overflow that would make
/// `encoding_rs::Encoding::decode` panic.
pub open spec fn decodable_len(len: int) -> bool {
    len <= (usize::MAX - 32) / 4
}

/// A character encoding, paired with its canonical name.
///
/// `enc` is always the `encoding_rs` encoding whose canonical name is
/// `name`; the constructors maintain that pairing and the fields stay
/// private, so contracts may speak of the name alone.
pub struct EncodingId {
    name: String,
    enc: &'static encoding_rs::Encoding,
}

impl View for EncodingId {
    type V = Seq<char>;

    closed spec fn view(&self) -> Seq<char> {
        self.name@
    }
}

impl EncodingId {
    /// Relies on `encoding_rs::Encoding::for_label` for the label lookup and
    /// on `encoding_rs::Encoding::name` for the canonical name of the match.
    #[verifier::external_body]
    pub fn from_label(label: &str) -> (r: Option<EncodingId>)
        ensures
            r is Some <==> label_lookup(label@) is Some,
            r matches Some(id) ==> id@ == label_lookup(label@)->0,
    {
        match encoding_rs::Encoding::for_label(label.as_bytes()) {
            Some(e) => Some(EncodingId { name: e.name().to_string(), enc: e }),
            None => None,
        }
    }

    /// Relies on `encoding_rs::UTF_8`, whose canonical name is "UTF-8".
    #[verifier::external_body]
    pub fn utf8() -> (r: EncodingId)
        ensures
            r@ == "UTF-8"@,
    {
        EncodingId { name: encoding_rs::UTF_8.name().to_string(), enc: encoding_rs::UTF_8 }
    }

    /// The canonical name, for display.
    pub fn name(&self) -> (r: &str)
        ensures
            r@ == self@,
    {
        self.name.as_str()
    }

    /// Relies on `encoding_rs::Encoding::decode`: decodes a whole byte
    /// buffer, sniffing a BOM first and replacing malformed sequences with
    /// U+FFFD; decoding nothing yields nothing.
    #[verifier::external_body]
    pub fn decode(&self, bytes: &Vec<u8>) -> (r: String)
        requires
            decodable_len(bytes@.len() as int),
        ensures
            r@ == decoded_text(self@, bytes@),
            bytes@.len() == 0 ==> r@.len() == 0,
    {
        let (text, _, _) = self.enc.decode(bytes.as_slice());
        text.into_owned()
    }
}

} // verus!
