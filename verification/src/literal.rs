//! Literals of an HDT graph: their text form `"value"`, `"value"^^<datatype>`
//! or `"value"@language`, and the parts that can be read back from it.
use std::marker::PhantomData;
use vstd::prelude::*;
use vstd::string::StringExecFns;
use vstd::utf8::{encode_scalar, encode_utf8};

use crate::text::{
    char_index_of, char_index_of_byte, chars_of, enc_len, last_index_in, lemma_char_index_of_prefix,
    lemma_char_width, lemma_encode_concat, lemma_last_index_in, lemma_last_index_in_is,
    prefix_byte_len, rfind_from, str_eq,
};

verus! {

/// The datatype of plain string literals.
pub const XSD_STRING: &'static str = "http://www.w3.org/2001/XMLSchema#string";

/// The datatype of literals with a language tag.
pub const RDF_LANG_STRING: &'static str = "http://www.w3.org/1999/02/22-rdf-syntax-ns#langString";

/// The datatype of a literal: a plain string, a language-tagged string, or
/// another datatype named by its IRI.
#[derive(Debug, PartialEq)]
pub enum DatatypePtr {
    Plain,
    Datatype(String),
    Language,
}

impl Clone for DatatypePtr {
    fn clone(&self) -> (r: Self)
        ensures
            r.iri() == self.iri(),
            r == *self,
    {
        match self {
            DatatypePtr::Plain => DatatypePtr::Plain,
            DatatypePtr::Datatype(s) => DatatypePtr::Datatype(s.clone()),
            DatatypePtr::Language => DatatypePtr::Language,
        }
    }
}

impl DatatypePtr {
    /// The IRI that the datatype stands for.
    pub open spec fn iri(&self) -> Seq<char> {
        match self {
            DatatypePtr::Plain => XSD_STRING@,
            DatatypePtr::Datatype(s) => s@,
            DatatypePtr::Language => RDF_LANG_STRING@,
        }
    }

    /// The IRI of the datatype.
    pub fn as_str(&self) -> (r: &str)
        ensures
            r@ == self.iri(),
    {
        match self {
            DatatypePtr::Plain => XSD_STRING,
            DatatypePtr::Datatype(s) => s.as_str(),
            DatatypePtr::Language => RDF_LANG_STRING,
        }
    }
}

/// Which of the three text forms a literal has.
#[derive(Clone, Copy, Debug, PartialEq, Eq, Structural, PartialOrd, Ord)]
pub enum LiteralType {
    Plain,
    Datatype,
    Language,
}

/// A literal, held as its text form together with the byte offset of the
/// quote that closes its value.
#[derive(Debug, PartialEq, Eq, PartialOrd, Ord)]
pub struct LiteralPtr<'g> {
    str: String,
    value_end: usize,
    literal_type: LiteralType,
    phantom: PhantomData<&'g u8>,
}

/// The model of a literal: its text, the byte offset (in the UTF-8 text) of
/// the quote that closes its value, and its form.
pub type LiteralModel = (Seq<char>, int, LiteralType);

/// A literal described by character positions: its text, the character
/// position of the quote that closes its value, and its form.
pub type LiteralChars = (Seq<char>, int, LiteralType);

/// The character position of the quote that closes the value of `m`.
pub open spec fn quote_index(m: LiteralModel) -> int {
    char_index_of(m.0, m.1)
}

/// The literal `m` described by character positions.
pub open spec fn char_model(m: LiteralModel) -> LiteralChars {
    (m.0, quote_index(m), m.2)
}

/// `"` + `v` + `"`.
pub open spec fn quoted(v: Seq<char>) -> Seq<char> {
    seq!['"'] + v + seq!['"']
}

/// The literal that `LiteralPtr::new` makes of a value, a datatype and an
/// optional language, by character positions: with a language
/// `"value"@language`; with the plain string datatype `"value"`; else
/// `"value"^^<datatype>`.
pub open spec fn literal_chars(
    value: Seq<char>,
    datatype: Seq<char>,
    language: Option<Seq<char>>,
) -> LiteralChars {
    match language {
        Some(lang) => (quoted(value) + seq!['@'] + lang, value.len() + 1int, LiteralType::Language),
        None => if datatype == XSD_STRING@ {
            (quoted(value), value.len() + 1int, LiteralType::Plain)
        } else {
            (
                quoted(value) + seq!['^', '^', '<'] + datatype + seq!['>'],
                value.len() + 1int,
                LiteralType::Datatype,
            )
        },
    }
}

/// The literal that `LiteralPtr::new` makes of a value, a datatype and an
/// optional language (see `literal_chars`); its closing quote comes after the
/// opening quote (one byte) and the bytes of the value.
pub open spec fn literal_model(
    value: Seq<char>,
    datatype: Seq<char>,
    language: Option<Seq<char>>,
) -> LiteralModel {
    let c = literal_chars(value, datatype, language);
    (c.0, 1 + enc_len(value), c.2)
}

/// The views of an optional string slice.
pub open spec fn opt_str_view(o: Option<&str>) -> Option<Seq<char>> {
    match o {
        Some(s) => Some(s@),
        None => None,
    }
}

/// The position of the quote that closes the value of the literal text `s`:
/// the last `"` after the opening one.
pub open spec fn closing_quote(s: Seq<char>) -> Option<int> {
    last_index_in(s, 1, s.len() as int, '"')
}

/// Whether `s` is the text of a literal in one of the three forms:
/// it opens with `"`, a later `"` closes the value, and what follows that
/// quote is nothing, `^^<` with a final `>`, or `@` (when the text does not end
/// with `>`).
pub open spec fn literal_syntax(s: Seq<char>) -> bool {
    &&& s.len() > 0
    &&& s[0] == '"'
    &&& closing_quote(s) matches Some(q) && {
        ||| q + 1 == s.len()
        ||| s.last() == '>' && q + 4 <= s.len() && s.subrange(q + 1, q + 4) == seq!['^', '^', '<']
        ||| s.last() != '>' && s[q + 1] == '@'
    }
}

/// The literal that the text `s` reads as, by character positions.
pub open spec fn parse_chars(s: Seq<char>) -> LiteralChars {
    let q = closing_quote(s).unwrap();
    let kind = if q + 1 == s.len() {
        LiteralType::Plain
    } else if s.last() == '>' {
        LiteralType::Datatype
    } else {
        LiteralType::Language
    };
    (s, q, kind)
}

/// The literal that the text `s` reads as.
pub open spec fn parse_literal(s: Seq<char>) -> LiteralModel {
    let c = parse_chars(s);
    (c.0, enc_len(s.take(c.1)), c.2)
}

/// Whether a literal described by character positions is one of the three
/// text forms, with the closing quote at `m.1`.
pub open spec fn literal_chars_wf(m: LiteralChars) -> bool {
    let (s, e, kind) = m;
    &&& 1 <= e < s.len()
    &&& s[0] == '"'
    &&& s[e] == '"'
    &&& match kind {
        LiteralType::Plain => e + 1 == s.len(),
        LiteralType::Datatype => {
            &&& e + 5 <= s.len()
            &&& s.subrange(e + 1, e + 4) == seq!['^', '^', '<']
            &&& s.last() == '>'
        },
        LiteralType::Language => e + 2 <= s.len() && s[e + 1] == '@',
    }
}

/// Whether a literal model is one of the three text forms, with its byte
/// offset falling between the characters, on the closing quote.
pub open spec fn literal_model_wf(m: LiteralModel) -> bool {
    &&& literal_chars_wf(char_model(m))
    &&& enc_len(m.0.take(quote_index(m))) == m.1
}

/// The value of a literal model: the text between the two quotes.
pub open spec fn model_value(m: LiteralModel) -> Seq<char> {
    m.0.subrange(1, quote_index(m))
}

/// The datatype IRI of a literal model.
pub open spec fn model_datatype(m: LiteralModel) -> Seq<char> {
    match m.2 {
        LiteralType::Plain => XSD_STRING@,
        LiteralType::Datatype => m.0.subrange(quote_index(m) + 4, m.0.len() - 1),
        LiteralType::Language => RDF_LANG_STRING@,
    }
}

/// The language tag of a literal model, if it has one.
pub open spec fn model_language(m: LiteralModel) -> Option<Seq<char>> {
    match m.2 {
        LiteralType::Language => Some(m.0.subrange(quote_index(m) + 2, m.0.len() as int)),
        _ => None,
    }
}

/// `"` followed by `v` takes one byte more than `v`.
pub proof fn lemma_enc_len_quote_prefix(v: Seq<char>)
    ensures
        enc_len(seq!['"'] + v) == 1 + enc_len(v),
{
    lemma_encode_concat(seq!['"'], v);
    lemma_char_width('"');
    let q = seq!['"'];
    assert(q.drop_first() =~= Seq::<char>::empty());
    assert(encode_utf8(q) == encode_scalar(q[0] as u32) + encode_utf8(q.drop_first()));
    assert(encode_utf8(Seq::<char>::empty()).len() == 0);
}

/// The byte offset that `literal_model` gives is at the character position
/// that `literal_chars` gives, between two characters.
pub proof fn lemma_literal_bytes(value: Seq<char>, datatype: Seq<char>, language: Option<Seq<char>>)
    ensures
        char_model(literal_model(value, datatype, language)) == literal_chars(
            value,
            datatype,
            language,
        ),
        enc_len(literal_model(value, datatype, language).0.take(value.len() + 1int)) == 1 + enc_len(
            value,
        ),
{
    let c = literal_chars(value, datatype, language);
    let a = seq!['"'] + value;
    let tail = c.0.skip(value.len() + 1int);
    assert(c.0 =~= a + tail);
    assert(c.0.take(value.len() + 1int) =~= a);
    lemma_enc_len_quote_prefix(value);
    lemma_char_index_of_prefix(a, tail);
}

/// Every literal that `literal_model` describes is in one of the three forms.
pub proof fn lemma_literal_model_wf(value: Seq<char>, datatype: Seq<char>, language: Option<Seq<char>>)
    ensures
        literal_model_wf(literal_model(value, datatype, language)),
{
    lemma_literal_bytes(value, datatype, language);
    lemma_literal_chars_wf(value, datatype, language);
}

/// Every literal that `literal_chars` describes is in one of the three forms.
pub proof fn lemma_literal_chars_wf(value: Seq<char>, datatype: Seq<char>, language: Option<Seq<char>>)
    ensures
        literal_chars_wf(literal_chars(value, datatype, language)),
{
    let m = literal_chars(value, datatype, language);
    let q = quoted(value);
    assert(q.len() == value.len() + 2);
    assert(q[0] == '"');
    assert(q[value.len() + 1int] == '"');
    match language {
        Some(lang) => {
            assert(m.0 =~= q + (seq!['@'] + lang));
        },
        None => {
            if datatype != XSD_STRING@ {
                let tail = seq!['^', '^', '<'] + datatype + seq!['>'];
                assert(m.0 =~= q + tail);
                assert(m.0.subrange(value.len() + 2int, value.len() + 5int) =~= seq!['^', '^', '<']);
            }
        },
    }
}

impl<'g> View for LiteralPtr<'g> {
    type V = LiteralModel;

    closed spec fn view(&self) -> LiteralModel {
        (self.str@, self.value_end as int, self.literal_type)
    }
}

impl<'g> Clone for LiteralPtr<'g> {
    fn clone(&self) -> (r: Self)
        ensures
            r@ == self@,
    {
        proof {
            use_type_invariant(self);
        }
        LiteralPtr {
            str: self.str.clone(),
            value_end: self.value_end,
            literal_type: self.literal_type,
            phantom: PhantomData,
        }
    }
}

impl<'g> LiteralPtr<'g> {
    /// The literal is in one of the three text forms; every literal is.
    #[verifier::type_invariant]
    pub open spec fn wf(&self) -> bool {
        literal_model_wf(self@)
    }

    /// The literal with the given value, datatype and optional language.
    /// A language makes it a language-tagged string, whatever the datatype.
    pub fn new(value: &str, datatype: &str, language: Option<&str>) -> (r: LiteralPtr<'g>)
        requires
            enc_len(value@) < usize::MAX,
        ensures
            r.wf(),
            r@ == literal_model(value@, datatype@, opt_str_view(language)),
    {
        let literal_type: LiteralType;
        if language.is_some() {
            literal_type = LiteralType::Language;
        } else if str_eq(datatype, XSD_STRING) {
            literal_type = LiteralType::Plain;
        } else {
            literal_type = LiteralType::Datatype;
        }
        proof {
            reveal_strlit("\"");
            reveal_strlit("@");
            reveal_strlit("^^<");
            reveal_strlit(">");
        }
        let mut str = String::new();
        str.append("\"");
        str.append(value);
        str.append("\"");
        match language {
            Some(lang) => {
                str.append("@");
                str.append(lang);
            },
            None => {
                if literal_type == LiteralType::Datatype {
                    str.append("^^<");
                    str.append(datatype);
                    str.append(">");
                }
            },
        }
        let value_end = value.len() + 1;
        proof {
            lemma_literal_model_wf(value@, datatype@, opt_str_view(language));
            assert((str@, value_end as int, literal_type) =~= literal_model(
                value@,
                datatype@,
                opt_str_view(language),
            ));
        }
        LiteralPtr { str, value_end, literal_type, phantom: PhantomData }
    }

    /// The value of the literal, without quotes, datatype or language.
    pub fn as_str(&self) -> (r: &str)
        ensures
            r@ == model_value(self@),
    {
        proof {
            use_type_invariant(self);
        }
        let q = char_index_of_byte(self.str.as_str(), self.value_end);
        self.str.as_str().substring_char(1, q)
    }

    /// The datatype of the literal.
    pub fn datatype(&self) -> (r: DatatypePtr)
        ensures
            r.iri() == model_datatype(self@),
            self@.2 == LiteralType::Plain ==> r == DatatypePtr::Plain,
            self@.2 == LiteralType::Datatype ==> r is Datatype,
            self@.2 == LiteralType::Language ==> r == DatatypePtr::Language,
    {
        match self.literal_type {
            LiteralType::Plain => DatatypePtr::Plain,
            LiteralType::Datatype => DatatypePtr::Datatype(String::from_str(self.datatype_str())),
            LiteralType::Language => DatatypePtr::Language,
        }
    }

    /// The IRI of the datatype of the literal.
    pub fn datatype_str(&self) -> (r: &str)
        ensures
            r@ == model_datatype(self@),
    {
        proof {
            use_type_invariant(self);
        }
        match self.literal_type {
            LiteralType::Plain => XSD_STRING,
            LiteralType::Datatype => {
                let q = char_index_of_byte(self.str.as_str(), self.value_end);
                let len = self.str.as_str().unicode_len();
                self.str.as_str().substring_char(q + 4, len - 1)
            },
            LiteralType::Language => RDF_LANG_STRING,
        }
    }

    /// The language tag of the literal, if it has one.
    pub fn language(&self) -> (r: Option<&str>)
        ensures
            opt_str_view(r) == model_language(self@),
    {
        proof {
            use_type_invariant(self);
        }
        match self.literal_type {
            LiteralType::Language => {
                let q = char_index_of_byte(self.str.as_str(), self.value_end);
                let len = self.str.as_str().unicode_len();
                Some(self.str.as_str().substring_char(q + 2, len))
            },
            _ => None,
        }
    }

    /// The whole text form of the literal, as the store writes it.
    pub fn text(&self) -> (r: &str)
        ensures
            r@ == self@.0,
    {
        self.str.as_str()
    }
}

/// Whether the text `s` reads as a literal (see `literal_syntax`).
pub fn literal_syntax_ok(s: &str) -> (r: bool)
    ensures
        r == literal_syntax(s@),
{
    let chars = chars_of(s);
    let n = chars.len();
    if n == 0 || chars[0] != '"' {
        return false;
    }
    match rfind_from(&chars, 1, '"') {
        None => false,
        Some(q) => {
            proof {
                lemma_last_index_in(s@, 1, s@.len() as int, '"');
            }
            if q + 1 == n {
                true
            } else if chars[n - 1] == '>' {
                if n - q >= 4 && chars[q + 1] == '^' && chars[q + 2] == '^' && chars[q + 3] == '<' {
                    assert(s@.subrange(q + 1, q + 4) =~= seq!['^', '^', '<']);
                    true
                } else {
                    proof {
                        if q + 4 <= n {
                            assert(s@.subrange(q + 1, q + 4)[0] == s@[q + 1]);
                            assert(s@.subrange(q + 1, q + 4)[1] == s@[q + 2]);
                            assert(s@.subrange(q + 1, q + 4)[2] == s@[q + 3]);
                        }
                    }
                    false
                }
            } else {
                chars[q + 1] == '@'
            }
        },
    }
}

/// The literal whose text form is `string`; its value ends at the last `"`.
pub fn string_to_literal<'g>(string: String) -> (r: LiteralPtr<'g>)
    requires
        literal_syntax(string@),
    ensures
        r.wf(),
        r@ == parse_literal(string@),
{
    let chars = chars_of(string.as_str());
    let n = chars.len();
    let q = rfind_from(&chars, 1, '"').unwrap();
    proof {
        lemma_last_index_in(string@, 1, string@.len() as int, '"');
    }
    let literal_type = if q + 1 == n {
        LiteralType::Plain
    } else if chars[n - 1] == '>' {
        proof {
            let s = string@;
            assert(s.subrange(q + 1, q + 4)[2] == s[q + 3]);
        }
        LiteralType::Datatype
    } else {
        LiteralType::Language
    };
    assert(literal_chars_wf((string@, q as int, literal_type)));
    let total = string.as_str().as_bytes().len();
    let value_end = prefix_byte_len(&chars, q, total);
    proof {
        let s = string@;
        assert(s =~= s.take(q as int) + s.skip(q as int));
        lemma_char_index_of_prefix(s.take(q as int), s.skip(q as int));
        assert(s.take(q as int).len() == q);
    }
    LiteralPtr { str: string, value_end, literal_type, phantom: PhantomData }
}

/// Rebuilding a literal from what it reads back: the value, the datatype IRI
/// and the language of a well-formed literal give that same literal again
/// (`LiteralPtr::new(l.as_str(), l.datatype_str(), l.language()) == l`),
/// except for a literal written `"value"^^<xsd:string>`, which comes back in the
/// plain form `"value"`.
pub proof fn lemma_literal_rebuild(l: LiteralPtr)
    requires
        l.wf(),
        !(l@.2 == LiteralType::Datatype && model_datatype(l@) == XSD_STRING@),
    ensures
        literal_model(model_value(l@), model_datatype(l@), model_language(l@)) == l@,
{
    let (s, b, kind) = l@;
    let e = quote_index(l@);
    let v = s.subrange(1, e);
    assert(s.take(e) =~= seq!['"'] + v);
    lemma_enc_len_quote_prefix(v);
    match kind {
        LiteralType::Plain => {
            assert(s =~= quoted(v));
        },
        LiteralType::Datatype => {
            let d = s.subrange(e + 4, s.len() - 1);
            assert(s =~= quoted(v) + seq!['^', '^', '<'] + d + seq!['>']) by {
                assert(s.subrange(e + 1, e + 4) == seq!['^', '^', '<']);
                assert forall|k: int| 0 <= k < s.len() implies s[k] == (quoted(v) + seq![
                    '^',
                    '^',
                    '<',
                ] + d + seq!['>'])[k] by {
                    if e + 1 <= k < e + 4 {
                        assert(s[k] == s.subrange(e + 1, e + 4)[k - (e + 1)]);
                    }
                }
            }
        },
        LiteralType::Language => {
            let lang = s.subrange(e + 2, s.len() as int);
            assert(s =~= quoted(v) + seq!['@'] + lang);
        },
    }
}

/// Reading back the text of a literal: the text that `LiteralPtr::new` writes
/// is valid literal syntax and reads as the same literal, provided the quote
/// that closes the value is the last one in the text and a language tag does
/// not end with `>`: neither a datatype written out nor a language tag holds
/// a `"`.
pub proof fn lemma_literal_text_reads_back(
    value: Seq<char>,
    datatype: Seq<char>,
    language: Option<Seq<char>>,
)
    requires
        language matches Some(lang) ==> !lang.contains('"') && (lang.len() == 0 || lang.last()
            != '>'),
        language is None && datatype != XSD_STRING@ ==> !datatype.contains('"'),
    ensures
        literal_syntax(literal_model(value, datatype, language).0),
        parse_literal(literal_model(value, datatype, language).0) == literal_model(
            value,
            datatype,
            language,
        ),
{
    let m = literal_chars(value, datatype, language);
    let s = m.0;
    let q: int = value.len() + 1int;
    lemma_literal_chars_wf(value, datatype, language);
    lemma_literal_bytes(value, datatype, language);
    assert forall|j: int| q < j < s.len() implies s[j] != '"' by {
        match language {
            Some(lang) => {
                assert(s =~= quoted(value) + seq!['@'] + lang);
                if j > q + 1 {
                    assert(s[j] == lang[j - q - 2]);
                }
            },
            None => {
                if datatype != XSD_STRING@ {
                    assert(s =~= quoted(value) + seq!['^', '^', '<'] + datatype + seq!['>']);
                    if q + 3 < j < s.len() - 1 {
                        assert(s[j] == datatype[j - q - 4]);
                    }
                }
            },
        }
    }
    lemma_last_index_in_is(s, 1, s.len() as int, '"', q);
    match language {
        Some(lang) => {
            assert(s =~= quoted(value) + seq!['@'] + lang);
            if lang.len() > 0 {
                assert(s.last() == lang.last());
            }
        },
        None => {},
    }
}

/// When `LiteralPtr::new` gives equal literals: exactly when the values and
/// the languages agree and, without a language, the datatypes agree too.
pub proof fn lemma_literal_model_equal(
    v1: Seq<char>,
    d1: Seq<char>,
    l1: Option<Seq<char>>,
    v2: Seq<char>,
    d2: Seq<char>,
    l2: Option<Seq<char>>,
)
    ensures
        (literal_model(v1, d1, l1) == literal_model(v2, d2, l2)) <==> (v1 == v2 && l1 == l2 && (
        l1 is Some || d1 == d2)),
{
    lemma_literal_bytes(v1, d1, l1);
    lemma_literal_bytes(v2, d2, l2);
    let m1 = literal_chars(v1, d1, l1);
    let m2 = literal_chars(v2, d2, l2);
    if literal_model(v1, d1, l1) == literal_model(v2, d2, l2) {
        assert(m1 == m2);
        let n = v1.len() as int;
        assert(v2.len() == n);
        assert(m1.0.subrange(1, n + 1) =~= v1);
        assert(m2.0.subrange(1, n + 1) =~= v2);
        match l1 {
            Some(a) => {
                let b = l2.unwrap();
                assert(m1.0.subrange(n + 3, m1.0.len() as int) =~= a);
                assert(m2.0.subrange(n + 3, m2.0.len() as int) =~= b);
            },
            None => {
                if d1 != XSD_STRING@ {
                    assert(m1.0.subrange(n + 5, m1.0.len() - 1) =~= d1);
                    assert(m2.0.subrange(n + 5, m2.0.len() - 1) =~= d2);
                }
            },
        }
    }
}

/// The parts that a literal reads back spell its text: a plain literal is
/// `"value"` with datatype xsd:string; a literal of the datatype form is
/// `"value"^^<datatype>`, its datatype being exactly the text between `^^<`
/// and the final `>`; a language-tagged literal is `"value"@language` with
/// datatype rdf:langString.
pub proof fn lemma_literal_parts_spell_text(m: LiteralModel)
    requires
        literal_model_wf(m),
    ensures
        m.2 == LiteralType::Plain ==> m.0 == quoted(model_value(m)) && model_datatype(m)
            == XSD_STRING@ && model_language(m) is None,
        m.2 == LiteralType::Datatype ==> m.0 == quoted(model_value(m)) + seq!['^', '^', '<']
            + model_datatype(m) + seq!['>'] && model_language(m) is None,
        m.2 == LiteralType::Language ==> model_language(m) is Some && m.0 == quoted(
            model_value(m),
        ) + seq!['@'] + model_language(m).unwrap() && model_datatype(m) == RDF_LANG_STRING@,
{
    let s = m.0;
    let e = quote_index(m);
    let v = s.subrange(1, e);
    match m.2 {
        LiteralType::Plain => {
            assert(s =~= quoted(v));
        },
        LiteralType::Datatype => {
            let d = s.subrange(e + 4, s.len() - 1);
            assert(s =~= quoted(v) + seq!['^', '^', '<'] + d + seq!['>']) by {
                assert(s.subrange(e + 1, e + 4) == seq!['^', '^', '<']);
                assert forall|k: int| 0 <= k < s.len() implies s[k] == (quoted(v) + seq![
                    '^',
                    '^',
                    '<',
                ] + d + seq!['>'])[k] by {
                    if e + 1 <= k < e + 4 {
                        assert(s[k] == s.subrange(e + 1, e + 4)[k - (e + 1)]);
                    }
                }
            }
        },
        LiteralType::Language => {
            let lang = s.subrange(e + 2, s.len() as int);
            assert(s =~= quoted(v) + seq!['@'] + lang);
        },
    }
}

/// What `LiteralPtr::new` is given is what the literal reads back: its value;
/// its language; without a language, its datatype (xsd:string for the plain
/// form too); with a language, rdf:langString.
pub proof fn lemma_new_reads_back_parts(
    value: Seq<char>,
    datatype: Seq<char>,
    language: Option<Seq<char>>,
)
    ensures
        model_value(literal_model(value, datatype, language)) == value,
        model_language(literal_model(value, datatype, language)) == language,
        language is None ==> model_datatype(literal_model(value, datatype, language)) == datatype,
        language is Some ==> model_datatype(literal_model(value, datatype, language))
            == RDF_LANG_STRING@,
{
    lemma_literal_bytes(value, datatype, language);
    let m = literal_model(value, datatype, language);
    let s = m.0;
    let n = value.len() as int;
    assert(quote_index(m) == n + 1);
    assert(s.subrange(1, n + 1) =~= value);
    match language {
        Some(lang) => {
            assert(s.subrange(n + 3, s.len() as int) =~= lang);
        },
        None => {
            if datatype != XSD_STRING@ {
                assert(s.subrange(n + 5, s.len() - 1) =~= datatype);
            }
        },
    }
}

/// Every literal text reads as a well-formed literal.
pub proof fn lemma_parse_literal_wf(s: Seq<char>)
    requires
        literal_syntax(s),
    ensures
        literal_model_wf(parse_literal(s)),
{
    let q = closing_quote(s).unwrap();
    lemma_last_index_in(s, 1, s.len() as int, '"');
    assert(s =~= s.take(q) + s.skip(q));
    lemma_char_index_of_prefix(s.take(q), s.skip(q));
    if q + 1 != s.len() && s.last() == '>' {
        assert(s.subrange(q + 1, q + 4)[2] == s[q + 3]);
    }
}

} // verus!
