//! Writing a `Content-Disposition` header out.

use vstd::prelude::*;

use crate::text::{to_chars, to_string};
use crate::header::content_disposition::{
    ContentDisposition, ContentDispositionView, DispositionParam, DispositionParamView,
    DispositionType, DispositionTypeView,
};

verus! {

/// Whether a character is written with a backslash before it inside a
/// quoted string: the double quote, the backslash, and the ASCII control
/// characters other than those from horizontal tab to shift in.
pub open spec fn needs_backslash(c: char) -> bool {
    let u = c as u32;
    u <= 0x08 || 0x10 <= u <= 0x1F || u == 0x7F || c == '"' || c == '\\'
}

/// A text as it stands inside a quoted string.
pub open spec fn escaped(text: Seq<char>) -> Seq<char>
    decreases text.len(),
{
    if text.len() == 0 {
        Seq::empty()
    } else if needs_backslash(text[0]) {
        seq!['\\', text[0]] + escaped(text.drop_first())
    } else {
        seq![text[0]] + escaped(text.drop_first())
    }
}

impl DispositionTypeView {
    /// How the disposition type is written out.
    pub open spec fn rendered(self) -> Seq<char> {
        match self {
            DispositionTypeView::Inline => "inline"@,
            DispositionTypeView::Attachment => "attachment"@,
            DispositionTypeView::FormData => "form-data"@,
            DispositionTypeView::Ext(name) => name,
        }
    }
}

impl DispositionParamView {
    /// How the parameter is written out. A field name stands as it is; a
    /// file name and the value of an unrecognized parameter stand in a
    /// quoted string; an extended value follows the asterisk and the equals
    /// sign in its own form.
    pub open spec fn rendered(self) -> Seq<char> {
        match self {
            DispositionParamView::Name(value) => "name="@ + value,
            DispositionParamView::Filename(value) => "filename=\""@ + escaped(value) + "\""@,
            DispositionParamView::Unknown(name, value) => name + "=\""@ + escaped(value) + "\""@,
            DispositionParamView::FilenameExt(value) => "filename*="@ + value.rendered(),
            DispositionParamView::UnknownExt(name, value) => name + "*="@ + value.rendered(),
        }
    }
}

/// How parameters are written out: each after a semicolon and a space.
pub open spec fn params_rendered(params: Seq<DispositionParamView>) -> Seq<char>
    decreases params.len(),
{
    if params.len() == 0 {
        Seq::empty()
    } else {
        "; "@ + params[0].rendered() + params_rendered(params.drop_first())
    }
}

impl ContentDispositionView {
    /// How the header is written out: the disposition type, then the
    /// parameters.
    pub open spec fn rendered(self) -> Seq<char> {
        self.disposition.rendered() + params_rendered(self.parameters)
    }
}

/// Writes a text after what `out` holds already.
fn write(out: &mut Vec<char>, text: &str)
    ensures
        final(out)@ == old(out)@ + text@,
{
    let mut chars = to_chars(text);
    out.append(&mut chars);
}

/// Writes a text as it stands inside a quoted string, after what `out`
/// holds already.
pub fn escape(text: &str, out: &mut Vec<char>)
    ensures
        final(out)@ == old(out)@ + escaped(text@),
{
    let chars = to_chars(text);
    let mut at: usize = 0;
    assert(chars@.skip(0) =~= chars@);
    while at < chars.len()
        invariant
            at <= chars.len(),
            chars@ == text@,
            out@ + escaped(chars@.skip(at as int)) == old(out)@ + escaped(text@),
        decreases chars.len() - at,
    {
        let ghost rest = chars@.skip(at as int);
        let ghost before = out@;
        let c = chars[at];
        let u: u32 = c as u32;
        proof {
            assert(rest[0] == c);
            assert(rest.drop_first() =~= chars@.skip(at + 1));
        }
        if u <= 0x08 || (0x10 <= u && u <= 0x1F) || u == 0x7F || c == '"' || c == '\\' {
            out.push('\\');
            out.push(c);
            assert(out@ + escaped(rest.drop_first()) =~= before + (seq!['\\', c] + escaped(
                rest.drop_first(),
            )));
        } else {
            out.push(c);
            assert(out@ + escaped(rest.drop_first()) =~= before + (seq![c] + escaped(
                rest.drop_first(),
            )));
        }
        at += 1;
    }
    assert(chars@.skip(at as int) =~= Seq::<char>::empty());
    assert(out@ + Seq::<char>::empty() =~= out@);
}

impl DispositionType {
    /// Writes the disposition type after what `out` holds already.
    pub fn render(&self, out: &mut Vec<char>)
        ensures
            final(out)@ == old(out)@ + self@.rendered(),
    {
        match self {
            DispositionType::Inline => write(out, "inline"),
            DispositionType::Attachment => write(out, "attachment"),
            DispositionType::FormData => write(out, "form-data"),
            DispositionType::Ext(name) => write(out, name.as_str()),
        }
    }

    /// The disposition type written out.
    pub fn to_string(&self) -> (text: String)
        ensures
            text@ == self@.rendered(),
    {
        let mut out: Vec<char> = Vec::new();
        self.render(&mut out);
        assert(Seq::<char>::empty() + self@.rendered() =~= self@.rendered());
        to_string(out.as_slice())
    }
}

impl DispositionParam {
    /// Writes the parameter after what `out` holds already.
    pub fn render(&self, out: &mut Vec<char>)
        ensures
            final(out)@ == old(out)@ + self@.rendered(),
    {
        let ghost before = out@;
        match self {
            DispositionParam::Name(value) => {
                write(out, "name=");
                write(out, value.as_str());
                assert(out@ =~= before + ("name="@ + value@));
            },
            DispositionParam::Filename(value) => {
                write(out, "filename=\"");
                escape(value.as_str(), out);
                write(out, "\"");
                assert(out@ =~= before + ("filename=\""@ + escaped(value@) + "\""@));
            },
            DispositionParam::Unknown(name, value) => {
                write(out, name.as_str());
                write(out, "=\"");
                escape(value.as_str(), out);
                write(out, "\"");
                assert(out@ =~= before + (name@ + "=\""@ + escaped(value@) + "\""@));
            },
            DispositionParam::FilenameExt(value) => {
                write(out, "filename*=");
                value.render(out);
                assert(out@ =~= before + ("filename*="@ + value@.rendered()));
            },
            DispositionParam::UnknownExt(name, value) => {
                write(out, name.as_str());
                write(out, "*=");
                value.render(out);
                assert(out@ =~= before + (name@ + "*="@ + value@.rendered()));
            },
        }
    }

    /// The parameter written out.
    pub fn to_string(&self) -> (text: String)
        ensures
            text@ == self@.rendered(),
    {
        let mut out: Vec<char> = Vec::new();
        self.render(&mut out);
        assert(Seq::<char>::empty() + self@.rendered() =~= self@.rendered());
        to_string(out.as_slice())
    }
}

impl ContentDisposition {
    /// Writes the header's value after what `out` holds already.
    pub fn render(&self, out: &mut Vec<char>)
        ensures
            final(out)@ == old(out)@ + self@.rendered(),
    {
        let ghost before = out@;
        self.disposition.render(out);
        let ghost params = self@.parameters;
        let mut at: usize = 0;
        assert(params.skip(0) =~= params);
        while at < self.parameters.len()
            invariant
                at <= self.parameters.len(),
                params == self@.parameters,
                out@ + params_rendered(params.skip(at as int)) == before
                    + self@.disposition.rendered() + params_rendered(params),
            decreases self.parameters.len() - at,
        {
            let ghost rest = params.skip(at as int);
            let ghost head = out@;
            write(out, "; ");
            self.parameters[at].render(out);
            proof {
                assert(rest[0] == self.parameters@[at as int]@);
                assert(rest.drop_first() =~= params.skip(at + 1));
                assert(out@ + params_rendered(rest.drop_first()) =~= head + ("; "@
                    + rest[0].rendered() + params_rendered(rest.drop_first())));
            }
            at += 1;
        }
        assert(params.skip(at as int) =~= Seq::<DispositionParamView>::empty());
        assert(out@ + Seq::<char>::empty() =~= out@);
        assert(before + self@.disposition.rendered() + params_rendered(params) =~= before
            + self@.rendered());
    }

    /// The header's value written out.
    pub fn to_string(&self) -> (text: String)
        ensures
            text@ == self@.rendered(),
    {
        let mut out: Vec<char> = Vec::new();
        self.render(&mut out);
        assert(Seq::<char>::empty() + self@.rendered() =~= self@.rendered());
        to_string(out.as_slice())
    }
}

} // verus!
