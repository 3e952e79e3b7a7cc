//! Extended parameter values: a character set, an optional language and
//! percent-encoded bytes, written `charset'language'value`.

use vstd::prelude::*;
use vstd::utf8::encode_utf8;

use crate::header::chars::{find, split_once};
use crate::header::charset::{Charset, CharsetView};
use crate::header::error::ParseError;
use crate::header::percent::{percent_decode, percent_decoded, percent_encode, percent_encoded};
use crate::text::{to_chars, to_string, uppercase};

verus! {

/// The canonical spelling of the language tag that a text denotes; `None`
/// for a text that is no language tag.
pub uninterp spec fn language_tag_spelling(text: Seq<char>) -> Option<Seq<char>>;

/// Parses a text as a `language_tags::LanguageTag` and writes the tag out
/// again: the result is a function of the text alone, `None` where the
/// text is refused.
#[verifier::external_body]
fn spell_language_tag(text: &str) -> (spelling: Option<String>)
    ensures
        spelling.is_some() == language_tag_spelling(text@).is_some(),
        spelling matches Some(tag) ==> tag@ == language_tag_spelling(text@)->0,
{
    match text.parse::<language_tags::LanguageTag>() {
        Ok(tag) => Some(tag.to_string()),
        Err(_) => None,
    }
}

/// A language tag, held in its canonical spelling.
#[derive(Clone, Debug, PartialEq)]
pub struct LanguageTag {
    spelling: String,
}

impl View for LanguageTag {
    type V = Seq<char>;

    closed spec fn view(&self) -> Seq<char> {
        self.spelling@
    }
}

impl LanguageTag {
    /// The language tag that the text denotes, if it denotes one.
    pub fn parse(text: &str) -> (tag: Option<LanguageTag>)
        ensures
            tag.is_some() == language_tag_spelling(text@).is_some(),
            tag matches Some(tag) ==> tag@ == language_tag_spelling(text@)->0,
    {
        match spell_language_tag(text) {
            Some(spelling) => Some(LanguageTag { spelling }),
            None => None,
        }
    }

    /// The canonical spelling of the tag.
    pub fn as_str(&self) -> (spelling: &str)
        ensures
            spelling@ == self@,
    {
        self.spelling.as_str()
    }
}

/// The value of an extended parameter.
#[derive(Clone, Debug, PartialEq)]
pub struct ExtendedValue {
    /// The character set that the bytes of the value are in.
    pub charset: Charset,
    /// The language of the value, where one is given.
    pub language_tag: Option<LanguageTag>,
    /// The bytes of the value, decoded.
    pub value: Vec<u8>,
}

/// The value of an extended parameter as the contracts see it.
pub struct ExtendedValueView {
    pub charset: CharsetView,
    pub language_tag: Option<Seq<char>>,
    pub value: Seq<u8>,
}

impl View for ExtendedValue {
    type V = ExtendedValueView;

    open spec fn view(&self) -> ExtendedValueView {
        ExtendedValueView {
            charset: self.charset@,
            language_tag: match self.language_tag {
                Some(tag) => Some(tag@),
                None => None,
            },
            value: self.value@,
        }
    }
}

impl ExtendedValueView {
    /// How the value is written out: the name of the character set, the
    /// language between two single quotes, and the bytes percent-encoded.
    pub open spec fn rendered(self) -> Seq<char> {
        self.charset.label() + seq!['\''] + (match self.language_tag {
            Some(tag) => tag,
            None => Seq::empty(),
        }) + seq!['\''] + percent_encoded(self.value)
    }
}

/// The three parts of an extended value: what comes before the first
/// single quote, what stands between the first and the second, and all
/// that follows the second. `None` where the text has fewer than two
/// single quotes.
pub open spec fn extended_parts(text: Seq<char>) -> Option<(Seq<char>, Seq<char>, Seq<char>)> {
    let first = find(text, '\'') as int;
    if first >= text.len() {
        None
    } else {
        let rest = text.skip(first + 1);
        let second = find(rest, '\'') as int;
        if second >= rest.len() {
            None
        } else {
            Some((text.take(first), rest.take(second), rest.skip(second + 1)))
        }
    }
}

/// The extended value made of a character set's name, a language and an
/// encoded value.
pub open spec fn extended_value_of(
    charset: Seq<char>,
    language_tag: Option<Seq<char>>,
    value: Seq<char>,
) -> ExtendedValueView {
    ExtendedValueView {
        charset: CharsetView::named(uppercase(charset)),
        language_tag,
        value: percent_decoded(encode_utf8(value)),
    }
}

/// What a text of the form `charset'language'value` denotes. The language
/// may be missing; one that is given has to be a language tag.
pub open spec fn extended_value_parsed(text: Seq<char>) -> Option<ExtendedValueView> {
    match extended_parts(text) {
        None => None,
        Some((charset, language, value)) => if language.len() == 0 {
            Some(extended_value_of(charset, None, value))
        } else {
            match language_tag_spelling(language) {
                Some(tag) => Some(extended_value_of(charset, Some(tag), value)),
                None => None,
            }
        },
    }
}

/// Cuts a text of the form `charset'language'value` into its three parts.
pub fn split_extended(text: &[char]) -> (parts: Option<(&[char], &[char], &[char])>)
    ensures
        match (parts, extended_parts(text@)) {
            (Some((charset, language, value)), Some(expected)) => (charset@, language@, value@)
                == expected,
            (None, None) => true,
            _ => false,
        },
{
    proof {
        crate::header::chars::lemma_cut_bounds(text@, '\'');
    }
    let (charset, rest) = split_once(text, '\'');
    if charset.len() == text.len() {
        return None;
    }
    assert(rest@ == text@.skip(find(text@, '\'') as int + 1));
    proof {
        crate::header::chars::lemma_cut_bounds(rest@, '\'');
    }
    let (language, value) = split_once(rest, '\'');
    if language.len() == rest.len() {
        return None;
    }
    Some((charset, language, value))
}

impl ExtendedValue {
    /// Puts an extended value together from the name of its character set,
    /// its language, and its value still percent-encoded.
    pub fn assemble(charset: &[char], language_tag: Option<LanguageTag>, value: &[char]) -> (made:
        ExtendedValue)
        ensures
            made@ == extended_value_of(
                charset@,
                match language_tag {
                    Some(tag) => Some(tag@),
                    None => None,
                },
                value@,
            ),
    {
        let name = to_string(charset);
        let encoded = to_string(value);
        ExtendedValue {
            charset: Charset::from_str(name.as_str()),
            language_tag,
            value: percent_decode(encoded.as_str().as_bytes()),
        }
    }

    /// How the value is written out.
    pub fn render(&self, out: &mut Vec<char>)
        ensures
            final(out)@ == old(out)@ + self@.rendered(),
    {
        let ghost before = out@;
        let mut label = to_chars(self.charset.label());
        out.append(&mut label);
        out.push('\'');
        match &self.language_tag {
            Some(tag) => {
                let mut spelling = to_chars(tag.as_str());
                out.append(&mut spelling);
            },
            None => {},
        }
        out.push('\'');
        let ghost head = out@;
        percent_encode(self.value.as_slice(), out);
        assert(head =~= before + (self@.charset.label() + seq!['\''] + (match self@.language_tag {
            Some(tag) => tag,
            None => Seq::empty(),
        }) + seq!['\'']));
        assert(out@ =~= before + self@.rendered());
    }

    /// The value written out: the name of the character set, the language
    /// between two single quotes, and the bytes percent-encoded.
    pub fn to_string(&self) -> (text: String)
        ensures
            text@ == self@.rendered(),
    {
        let mut out: Vec<char> = Vec::new();
        self.render(&mut out);
        assert(Seq::<char>::empty() + self@.rendered() =~= self@.rendered());
        to_string(out.as_slice())
    }
}

/// Reads a text of the form `charset'language'value`.
pub fn parse_extended_value(text: &[char]) -> (parsed: Result<ExtendedValue, ParseError>)
    ensures
        match extended_value_parsed(text@) {
            Some(expected) => parsed matches Ok(value) && value@ == expected,
            None => parsed == Err::<ExtendedValue, _>(ParseError::Header),
        },
{
    let (charset, language, value) = match split_extended(text) {
        Some(parts) => parts,
        None => {
            return Err(ParseError::Header);
        },
    };
    let language_tag = if language.len() == 0 {
        None
    } else {
        let spelled = to_string(language);
        match LanguageTag::parse(spelled.as_str()) {
            Some(tag) => Some(tag),
            None => {
                return Err(ParseError::Header);
            },
        }
    };
    Ok(ExtendedValue::assemble(charset, language_tag, value))
}

} // verus!
