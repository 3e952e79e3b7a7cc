//! The `Content-Disposition` header: how the content of a body is meant to
//! be presented, with the parameters that go with it.

use vstd::prelude::*;
use vstd::slice::slice_subrange;
use vstd::utf8::{decode_utf8, valid_utf8};

use crate::header::chars::{
    lemma_cut_bounds, split, split_and_trim, split_once, split_once_and_trim, trim, trim_start,
    trimmed, trimmed_start,
};
use crate::header::error::ParseError;
use crate::header::extended::{
    extended_value_parsed, parse_extended_value, ExtendedValue, ExtendedValueView,
};
use crate::text::{eq_ignore_ascii_case, same_ignoring_case, to_chars, to_string};

verus! {

/// The implied disposition of the content of the HTTP body.
#[derive(Clone, Debug, PartialEq)]
pub enum DispositionType {
    /// Inline implies default processing.
    Inline,
    /// Attachment implies that the recipient should prompt the user to save
    /// the response locally, rather than process it normally.
    Attachment,
    /// Used in *multipart/form-data* to carry the field name and the file
    /// name.
    FormData,
    /// Extension type. Should be handled by recipients the same way as
    /// `Attachment`.
    Ext(String),
}

/// A disposition as the contracts see it.
pub enum DispositionTypeView {
    Inline,
    Attachment,
    FormData,
    Ext(Seq<char>),
}

impl View for DispositionType {
    type V = DispositionTypeView;

    open spec fn view(&self) -> DispositionTypeView {
        match self {
            DispositionType::Inline => DispositionTypeView::Inline,
            DispositionType::Attachment => DispositionTypeView::Attachment,
            DispositionType::FormData => DispositionTypeView::FormData,
            DispositionType::Ext(name) => DispositionTypeView::Ext(name@),
        }
    }
}

/// Parameter in [`ContentDisposition`].
#[derive(Clone, Debug, PartialEq)]
pub enum DispositionParam {
    /// For *multipart/form-data*, the name of a field of the form.
    Name(String),
    /// A plain file name.
    Filename(String),
    /// An extended file name.
    FilenameExt(ExtendedValue),
    /// An unrecognized regular parameter: its name and value.
    Unknown(String, String),
    /// An unrecognized extended parameter. The single trailing asterisk is
    /// not part of the name.
    UnknownExt(String, ExtendedValue),
}

/// A parameter as the contracts see it.
pub enum DispositionParamView {
    Name(Seq<char>),
    Filename(Seq<char>),
    FilenameExt(ExtendedValueView),
    Unknown(Seq<char>, Seq<char>),
    UnknownExt(Seq<char>, ExtendedValueView),
}

impl View for DispositionParam {
    type V = DispositionParamView;

    open spec fn view(&self) -> DispositionParamView {
        match self {
            DispositionParam::Name(value) => DispositionParamView::Name(value@),
            DispositionParam::Filename(value) => DispositionParamView::Filename(value@),
            DispositionParam::FilenameExt(value) => DispositionParamView::FilenameExt(value@),
            DispositionParam::Unknown(name, value) => DispositionParamView::Unknown(
                name@,
                value@,
            ),
            DispositionParam::UnknownExt(name, value) => DispositionParamView::UnknownExt(
                name@,
                value@,
            ),
        }
    }
}

/// A *Content-Disposition* header, for the main body of a response or for
/// a part of a multipart body.
#[derive(Clone, Debug, PartialEq)]
pub struct ContentDisposition {
    /// The disposition type
    pub disposition: DispositionType,
    /// Disposition parameters
    pub parameters: Vec<DispositionParam>,
}

/// A header as the contracts see it.
pub struct ContentDispositionView {
    pub disposition: DispositionTypeView,
    pub parameters: Seq<DispositionParamView>,
}

/// The parameters as the contracts see them.
pub open spec fn param_views(parameters: Seq<DispositionParam>) -> Seq<DispositionParamView> {
    parameters.map_values(|param: DispositionParam| param@)
}

impl View for ContentDisposition {
    type V = ContentDispositionView;

    open spec fn view(&self) -> ContentDispositionView {
        ContentDispositionView {
            disposition: self.disposition@,
            parameters: param_views(self.parameters@),
        }
    }
}

/// The disposition that a name stands for. Case does not count for the
/// three that are known; any other name is kept as it is.
pub open spec fn disposition_of(name: Seq<char>) -> DispositionTypeView {
    if same_ignoring_case(name, "inline"@) {
        DispositionTypeView::Inline
    } else if same_ignoring_case(name, "attachment"@) {
        DispositionTypeView::Attachment
    } else if same_ignoring_case(name, "form-data"@) {
        DispositionTypeView::FormData
    } else {
        DispositionTypeView::Ext(name)
    }
}

/// The regular parameter with this name and value.
pub open spec fn regular_param(name: Seq<char>, value: Seq<char>) -> DispositionParamView {
    if same_ignoring_case(name, "name"@) {
        DispositionParamView::Name(value)
    } else if same_ignoring_case(name, "filename"@) {
        DispositionParamView::Filename(value)
    } else {
        DispositionParamView::Unknown(name, value)
    }
}

/// The extended parameter with this name, the asterisk taken off, and
/// value.
pub open spec fn extended_param(name: Seq<char>, value: ExtendedValueView) -> DispositionParamView {
    if same_ignoring_case(name, "filename"@) {
        DispositionParamView::FilenameExt(value)
    } else {
        DispositionParamView::UnknownExt(name, value)
    }
}

/// A quoted string read up to its closing quote. `text` is what follows
/// the opening quote, or, further in, what is still to be read;
/// `escaping` says that the character before was a backslash that escapes
/// the next one. The result is the content of the string, escapes
/// resolved, and the number of characters read, closing quote included;
/// `None` where the closing quote is missing.
pub open spec fn unquoted(text: Seq<char>, escaping: bool) -> Option<(Seq<char>, int)>
    decreases text.len(),
{
    if text.len() == 0 {
        None
    } else if escaping {
        extend(seq![text[0]], unquoted(text.drop_first(), false))
    } else if text[0] == '\\' {
        extend(Seq::empty(), unquoted(text.drop_first(), true))
    } else if text[0] == '"' {
        Some((Seq::empty(), 1))
    } else {
        extend(seq![text[0]], unquoted(text.drop_first(), false))
    }
}

/// A reading of a quoted string with one more character read before it,
/// which put `content` in front of the string's content.
pub open spec fn extend(content: Seq<char>, rest: Option<(Seq<char>, int)>) -> Option<
    (Seq<char>, int),
> {
    match rest {
        Some((more, read)) => Some((content + more, read + 1)),
        None => None,
    }
}

/// The parameter at the head of `left`, and what is left after it; `None`
/// where what stands there is no parameter.
///
/// A parameter is a name, an equals sign and a value, up to the next
/// semicolon. Neither name nor value may be missing. A name that ends in an
/// asterisk has an extended value. Any other has a quoted string, in which
/// a backslash escapes the next character and semicolons are part of the
/// string, or a token, which may not be empty.
pub open spec fn first_param(left: Seq<char>) -> Option<(DispositionParamView, Seq<char>)> {
    let (name, rest) = split_and_trim(left, '=');
    if name.len() == 0 || name == seq!['*'] || rest.len() == 0 {
        None
    } else if name.last() == '*' {
        let (value, after) = split_and_trim(rest, ';');
        match extended_value_parsed(value) {
            Some(value) => Some((extended_param(name.drop_last(), value), after)),
            None => None,
        }
    } else if rest[0] == '"' {
        match unquoted(rest.skip(1), false) {
            Some((value, read)) => Some(
                (regular_param(name, value), trim_start(split(rest.skip(1 + read), ';').1)),
            ),
            None => None,
        }
    } else {
        let (token, after) = split_and_trim(rest, ';');
        if token.len() == 0 {
            None
        } else {
            Some((regular_param(name, token), after))
        }
    }
}

/// The parameters that `left` holds, one after the other; `None` where
/// any of them is malformed.
pub open spec fn params_parsed(left: Seq<char>) -> Option<Seq<DispositionParamView>>
    decreases left.len(),
{
    if left.len() == 0 {
        Some(Seq::empty())
    } else {
        match first_param(left) {
            Some((param, after)) => if after.len() < left.len() {
                match params_parsed(after) {
                    Some(more) => Some(seq![param] + more),
                    None => None,
                }
            } else {
                None
            },
            None => None,
        }
    }
}

/// What the text of a header value denotes; `None` where the text is
/// malformed.
///
/// White space around the whole and around each part does not count. The
/// disposition type comes first and may not be empty; the parameters
/// follow, each after a semicolon.
pub open spec fn content_disposition_parsed(text: Seq<char>) -> Option<ContentDispositionView> {
    let (kind, left) = split_and_trim(trim(text), ';');
    if kind.len() == 0 {
        None
    } else {
        match params_parsed(left) {
            Some(parameters) => Some(
                ContentDispositionView { disposition: disposition_of(kind), parameters },
            ),
            None => None,
        }
    }
}

/// Reading a parameter uses up some of the text: what is left after it is
/// shorter than what it was read from.
pub proof fn lemma_first_param_shortens(left: Seq<char>)
    ensures
        first_param(left) matches Some((_, after)) ==> after.len() < left.len(),
{
    lemma_cut_bounds(left, '=');
    let cut = split(left, '=');
    lemma_cut_bounds(cut.0, '=');
    lemma_cut_bounds(cut.1, '=');
    let (name, rest) = split_and_trim(left, '=');
    if rest.len() > 0 {
        assert(rest.len() < left.len());
        let tail = split(rest, ';');
        lemma_cut_bounds(rest, ';');
        lemma_cut_bounds(tail.0, ';');
        lemma_cut_bounds(tail.1, ';');
        if rest[0] == '"' {
            match unquoted(rest.skip(1), false) {
                Some((value, read)) => {
                    lemma_unquoted_bounds(rest.skip(1), false);
                    let behind = rest.skip(1 + read);
                    let last = split(behind, ';');
                    lemma_cut_bounds(behind, ';');
                    lemma_cut_bounds(last.1, ';');
                },
                None => {},
            }
        }
    }
}

/// A quoted string does not read beyond the text.
pub proof fn lemma_unquoted_bounds(text: Seq<char>, escaping: bool)
    ensures
        unquoted(text, escaping) matches Some((_, read)) ==> 1 <= read <= text.len(),
    decreases text.len(),
{
    if text.len() > 0 {
        lemma_unquoted_bounds(text.drop_first(), false);
        lemma_unquoted_bounds(text.drop_first(), true);
    }
}

/// `String::from_utf8`: the bytes as a string where they are valid UTF-8,
/// and `None` where they are not.
#[verifier::external_body]
fn from_utf8(bytes: &[u8]) -> (text: Option<String>)
    ensures
        text.is_some() == valid_utf8(bytes@),
        text matches Some(text) ==> text@ == decode_utf8(bytes@),
{
    String::from_utf8(bytes.to_vec()).ok()
}

impl DispositionType {
    /// The disposition that a name stands for.
    pub fn from(origin: &str) -> (kind: DispositionType)
        ensures
            kind@ == disposition_of(origin@),
    {
        if eq_ignore_ascii_case(origin, "inline") {
            DispositionType::Inline
        } else if eq_ignore_ascii_case(origin, "attachment") {
            DispositionType::Attachment
        } else if eq_ignore_ascii_case(origin, "form-data") {
            DispositionType::FormData
        } else {
            DispositionType::Ext(origin.to_owned())
        }
    }
}

/// The regular parameter with this name and value.
fn make_regular(name: String, value: String) -> (param: DispositionParam)
    ensures
        param@ == regular_param(name@, value@),
{
    if eq_ignore_ascii_case(name.as_str(), "name") {
        DispositionParam::Name(value)
    } else if eq_ignore_ascii_case(name.as_str(), "filename") {
        DispositionParam::Filename(value)
    } else {
        DispositionParam::Unknown(name, value)
    }
}

/// The extended parameter with this name and value.
fn make_extended(name: String, value: ExtendedValue) -> (param: DispositionParam)
    ensures
        param@ == extended_param(name@, value@),
{
    if eq_ignore_ascii_case(name.as_str(), "filename") {
        DispositionParam::FilenameExt(value)
    } else {
        DispositionParam::UnknownExt(name, value)
    }
}

/// Reads a quoted string, from behind its opening quote up to its closing
/// quote.
fn unquote(text: &[char]) -> (found: Option<(Vec<char>, usize)>)
    ensures
        match (found, unquoted(text@, false)) {
            (Some((value, read)), Some((expected, length))) => value@ == expected && read
                == length && 1 <= read <= text.len(),
            (None, None) => true,
            _ => false,
        },
{
    let mut value: Vec<char> = Vec::new();
    let mut escaping = false;
    let mut at: usize = 0;
    assert(text@.skip(0) =~= text@);
    while at < text.len()
        invariant
            at <= text.len(),
            match (unquoted(text@, false), unquoted(text@.skip(at as int), escaping)) {
                (Some((expected, length)), Some((more, read))) => expected == value@ + more
                    && length == at + read,
                (None, None) => true,
                _ => false,
            },
        decreases text.len() - at,
    {
        let ghost rest = text@.skip(at as int);
        let c = text[at];
        proof {
            assert(rest[0] == c);
            assert(rest.drop_first() =~= text@.skip(at + 1));
            lemma_unquoted_bounds(text@, false);
        }
        if escaping {
            escaping = false;
            proof {
                match unquoted(rest.drop_first(), false) {
                    Some((more, read)) => {
                        assert(value@.push(c) + more =~= value@ + (seq![c] + more));
                    },
                    None => {},
                }
            }
            value.push(c);
        } else if c == '\\' {
            escaping = true;
            proof {
                match unquoted(rest.drop_first(), true) {
                    Some((more, read)) => {
                        assert(value@ + more =~= value@ + (Seq::<char>::empty() + more));
                    },
                    None => {},
                }
            }
        } else if c == '"' {
            assert(value@ + Seq::<char>::empty() =~= value@);
            return Some((value, at + 1));
        } else {
            proof {
                match unquoted(rest.drop_first(), false) {
                    Some((more, read)) => {
                        assert(value@.push(c) + more =~= value@ + (seq![c] + more));
                    },
                    None => {},
                }
            }
            value.push(c);
        }
        at += 1;
    }
    None
}

/// Reads the parameter at the head of `left`.
fn parse_param(left: &[char]) -> (found: Option<(DispositionParam, &[char])>)
    ensures
        match (found, first_param(left@)) {
            (Some((param, after)), Some((expected, rest))) => param@ == expected && after@
                == rest,
            (None, None) => true,
            _ => false,
        },
{
    let (name, rest) = split_once_and_trim(left, '=');
    if name.len() == 0 || (name.len() == 1 && name[0] == '*') || rest.len() == 0 {
        assert(name.len() == 1 && name[0] == '*' ==> name@ =~= seq!['*']);
        return None;
    }
    assert(name@ != seq!['*']) by {
        if name@ == seq!['*'] {
            assert(seq!['*'].len() == 1);
            assert(seq!['*'][0] == '*');
        }
    }
    if name[name.len() - 1] == '*' {
        let (value, after) = split_once_and_trim(rest, ';');
        let value = match parse_extended_value(value) {
            Ok(value) => value,
            Err(_) => {
                return None;
            },
        };
        let bare = slice_subrange(name, 0, name.len() - 1);
        assert(bare@ =~= name@.drop_last());
        Some((make_extended(to_string(bare), value), after))
    } else if rest[0] == '"' {
        let quoted = slice_subrange(rest, 1, rest.len());
        assert(quoted@ =~= rest@.skip(1));
        let (value, read) = match unquote(quoted) {
            Some(found) => found,
            None => {
                return None;
            },
        };
        let behind = slice_subrange(rest, 1 + read, rest.len());
        assert(behind@ =~= rest@.skip(1 + read));
        let after = trimmed_start(split_once(behind, ';').1);
        Some((make_regular(to_string(name), to_string(value.as_slice())), after))
    } else {
        let (token, after) = split_once_and_trim(rest, ';');
        if token.len() == 0 {
            return None;
        }
        Some((make_regular(to_string(name), to_string(token)), after))
    }
}

impl ContentDisposition {
    /// Parse a raw Content-Disposition header value.
    ///
    /// The value is refused where it is not UTF-8, where the disposition
    /// type is missing, and where a parameter is malformed.
    pub fn from_raw(hv: &[u8]) -> (parsed: Result<ContentDisposition, ParseError>)
        ensures
            !valid_utf8(hv@) ==> parsed == Err::<ContentDisposition, _>(ParseError::Header),
            valid_utf8(hv@) ==> match content_disposition_parsed(decode_utf8(hv@)) {
                Some(expected) => parsed matches Ok(header) && header@ == expected,
                None => parsed == Err::<ContentDisposition, _>(ParseError::Header),
            },
    {
        let text = match from_utf8(hv) {
            Some(text) => text,
            None => {
                return Err(ParseError::Header);
            },
        };
        let chars = to_chars(text.as_str());
        Self::parse(chars.as_slice())
    }

    /// Reads the text of a header value.
    pub fn parse(text: &[char]) -> (parsed: Result<ContentDisposition, ParseError>)
        ensures
            match content_disposition_parsed(text@) {
                Some(expected) => parsed matches Ok(header) && header@ == expected,
                None => parsed == Err::<ContentDisposition, _>(ParseError::Header),
            },
    {
        let (kind, params) = split_once_and_trim(trimmed(text), ';');
        if kind.len() == 0 {
            return Err(ParseError::Header);
        }
        let kind_text = to_string(kind);
        let disposition = DispositionType::from(kind_text.as_str());
        let mut parameters: Vec<DispositionParam> = Vec::new();
        let mut left = params;
        assert(param_views(parameters@) =~= Seq::empty());
        while left.len() > 0
            invariant
                kind@.len() > 0,
                (kind@, params@) == split_and_trim(trim(text@), ';'),
                match (params_parsed(params@), params_parsed(left@)) {
                    (Some(expected), Some(more)) => expected == param_views(parameters@) + more,
                    (None, None) => true,
                    _ => false,
                },
            decreases left.len(),
        {
            proof {
                lemma_first_param_shortens(left@);
            }
            let ghost before = param_views(parameters@);
            match parse_param(left) {
                Some((param, after)) => {
                    proof {
                        match params_parsed(after@) {
                            Some(more) => {
                                assert(param_views(parameters@.push(param)) =~= before.push(
                                    param@,
                                ));
                                assert(before.push(param@) + more =~= before + (seq![param@]
                                    + more));
                            },
                            None => {},
                        }
                    }
                    parameters.push(param);
                    left = after;
                },
                None => {
                    return Err(ParseError::Header);
                },
            }
        }
        assert(param_views(parameters@) + Seq::empty() =~= param_views(parameters@));
        Ok(ContentDisposition { disposition, parameters })
    }
}

} // verus!
