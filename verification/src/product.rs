use vstd::prelude::*;
use vstd::utf8::encode_utf8;
use vstd::utf8::is_ascii_chars;
use vstd::utf8::is_ascii_chars_encode_utf8;

verus! {

/// UTF-8 byte length of a character sequence.
pub open spec fn str_bytes(s: Seq<char>) -> nat {
    encode_utf8(s).len()
}

/// Mathematical model of one synthetic record: the id, the characters of the
/// name, the bit pattern of the 64-bit price, the stock flag, and the
/// characters of each tag.
pub struct ProductModel {
    pub id: u64,
    pub name: Seq<char>,
    pub price_bits: u64,
    pub in_stock: bool,
    pub tags: Seq<Seq<char>>,
}

impl ProductModel {
    /// A well-formed record carries exactly two tags, as the record shape
    /// fixes them to a two-element list, and each of its text fields has a
    /// UTF-8 byte length that fits the machine's word, as every held string
    /// does.
    pub open spec fn wf(self) -> bool {
        &&& self.tags.len() == 2
        &&& str_bytes(self.name) <= usize::MAX
        &&& str_bytes(self.tags[0]) <= usize::MAX
        &&& str_bytes(self.tags[1]) <= usize::MAX
    }
}

/// An ASCII character sequence takes one UTF-8 byte per character.
pub proof fn lemma_ascii_str_bytes(s: Seq<char>)
    requires
        is_ascii_chars(s),
    ensures
        str_bytes(s) == s.len(),
{
    is_ascii_chars_encode_utf8(s);
}

/// The fixed-shape synthetic record that every format is measured against.
///
/// The price is a 64-bit value held here as its raw bit pattern, so that the
/// harness logic stays on plain integers; the adapters that need the numeric
/// value reconstruct it from these bits.
pub struct Product {
    pub id: u64,
    pub name: String,
    pub price_bits: u64,
    pub in_stock: bool,
    pub tags: Vec<String>,
}

impl View for Product {
    type V = ProductModel;

    open spec fn view(&self) -> ProductModel {
        ProductModel {
            id: self.id,
            name: self.name@,
            price_bits: self.price_bits,
            in_stock: self.in_stock,
            tags: self.tags.deep_view(),
        }
    }
}

impl Product {
    /// Builds a record with the fixed two-element tag list.
    pub fn new(id: u64, name: String, price_bits: u64, in_stock: bool) -> (r: Product)
        requires
            str_bytes(name@) <= usize::MAX,
        ensures
            r@.wf(),
            r@.id == id,
            r@.name == name@,
            r@.price_bits == price_bits,
            r@.in_stock == in_stock,
            r@.tags[0] == "benchmark"@,
            r@.tags[1] == "test"@,
    {
        let tags: Vec<String> = vec!["benchmark".to_owned(), "test".to_owned()];
        let r = Product { id, name, price_bits, in_stock, tags };
        proof {
            assert(r@.tags.len() == 2);
            assert(r@.tags[0] == "benchmark"@);
            assert(r@.tags[1] == "test"@);
            reveal_strlit("benchmark");
            reveal_strlit("test");
            assert(is_ascii_chars("benchmark"@));
            assert(is_ascii_chars("test"@));
            lemma_ascii_str_bytes("benchmark"@);
            lemma_ascii_str_bytes("test"@);
        }
        r
    }
}

} // verus!
