//! Looking things up in a `Content-Disposition` header.

use vstd::prelude::*;

use crate::header::content_disposition::{
    ContentDisposition, DispositionParam, DispositionParamView, DispositionType,
    DispositionTypeView,
};
use crate::header::extended::{ExtendedValue, ExtendedValueView};
use crate::text::{eq_ignore_ascii_case, same_ignoring_case};

verus! {

impl DispositionParamView {
    /// The field name, where the parameter is one.
    pub open spec fn name(self) -> Option<Seq<char>> {
        match self {
            DispositionParamView::Name(value) => Some(value),
            _ => None,
        }
    }

    /// The file name, where the parameter is a plain one.
    pub open spec fn filename(self) -> Option<Seq<char>> {
        match self {
            DispositionParamView::Filename(value) => Some(value),
            _ => None,
        }
    }

    /// The file name, where the parameter is an extended one.
    pub open spec fn filename_ext(self) -> Option<ExtendedValueView> {
        match self {
            DispositionParamView::FilenameExt(value) => Some(value),
            _ => None,
        }
    }

    /// The value, where the parameter is an unrecognized regular one whose
    /// name is `name`, case not counting.
    pub open spec fn unknown(self, name: Seq<char>) -> Option<Seq<char>> {
        match self {
            DispositionParamView::Unknown(own, value) => if same_ignoring_case(own, name) {
                Some(value)
            } else {
                None
            },
            _ => None,
        }
    }

    /// The value, where the parameter is an unrecognized extended one whose
    /// name is `name`, case not counting.
    pub open spec fn unknown_ext(self, name: Seq<char>) -> Option<ExtendedValueView> {
        match self {
            DispositionParamView::UnknownExt(own, value) => if same_ignoring_case(own, name) {
                Some(value)
            } else {
                None
            },
            _ => None,
        }
    }
}

/// Whether a text that was looked up is the expected one.
pub open spec fn is_found(found: Option<&str>, expected: Option<Seq<char>>) -> bool {
    match (found, expected) {
        (Some(found), Some(expected)) => found@ == expected,
        (None, None) => true,
        _ => false,
    }
}

/// Whether an extended value that was looked up is the expected one.
pub open spec fn is_found_ext(found: Option<&ExtendedValue>, expected: Option<ExtendedValueView>)
    -> bool {
    match (found, expected) {
        (Some(found), Some(expected)) => found@ == expected,
        (None, None) => true,
        _ => false,
    }
}

/// What `pick` gives for the first of the parameters for which it gives
/// anything.
pub open spec fn first_of<T>(
    params: Seq<DispositionParamView>,
    pick: spec_fn(DispositionParamView) -> Option<T>,
) -> Option<T>
    decreases params.len(),
{
    if params.len() == 0 {
        None
    } else {
        match pick(params[0]) {
            Some(found) => Some(found),
            None => first_of(params.drop_first(), pick),
        }
    }
}

/// Where `pick` gives nothing for the parameters before position `at`, the
/// first that it gives anything for is at `at` or behind it.
pub proof fn lemma_first_of<T>(
    params: Seq<DispositionParamView>,
    pick: spec_fn(DispositionParamView) -> Option<T>,
    at: int,
)
    requires
        0 <= at <= params.len(),
        forall|i: int| 0 <= i < at ==> pick(#[trigger] params[i]).is_none(),
    ensures
        at == params.len() ==> first_of(params, pick).is_none(),
        at < params.len() && pick(params[at]).is_some() ==> first_of(params, pick) == pick(
            params[at],
        ),
    decreases at,
{
    if at > 0 {
        let rest = params.drop_first();
        assert forall|i: int| 0 <= i < at - 1 implies pick(#[trigger] rest[i]).is_none() by {
            assert(rest[i] == params[i + 1]);
        }
        if at < params.len() {
            assert(rest[at - 1] == params[at]);
        }
        lemma_first_of(rest, pick, at - 1);
        assert(pick(params[0]).is_none());
    }
}

impl DispositionParam {
    /// Returns `true` if the parameter is `Name`.
    pub fn is_name(&self) -> (yes: bool)
        ensures
            yes == self@.name().is_some(),
    {
        self.as_name().is_some()
    }

    /// Returns `true` if the parameter is `Filename`.
    pub fn is_filename(&self) -> (yes: bool)
        ensures
            yes == self@.filename().is_some(),
    {
        self.as_filename().is_some()
    }

    /// Returns `true` if the parameter is `FilenameExt`.
    pub fn is_filename_ext(&self) -> (yes: bool)
        ensures
            yes == self@.filename_ext().is_some(),
    {
        self.as_filename_ext().is_some()
    }

    /// Returns `true` if the parameter is `Unknown` and the `name` matches.
    pub fn is_unknown(&self, name: &str) -> (yes: bool)
        ensures
            yes == self@.unknown(name@).is_some(),
    {
        self.as_unknown(name).is_some()
    }

    /// Returns `true` if the parameter is `UnknownExt` and the `name`
    /// matches.
    pub fn is_unknown_ext(&self, name: &str) -> (yes: bool)
        ensures
            yes == self@.unknown_ext(name@).is_some(),
    {
        self.as_unknown_ext(name).is_some()
    }

    /// Returns the name if applicable.
    pub fn as_name(&self) -> (found: Option<&str>)
        ensures
            is_found(found, self@.name()),
    {
        match self {
            DispositionParam::Name(name) => Some(name.as_str()),
            _ => None,
        }
    }

    /// Returns the filename if applicable.
    pub fn as_filename(&self) -> (found: Option<&str>)
        ensures
            is_found(found, self@.filename()),
    {
        match self {
            DispositionParam::Filename(filename) => Some(filename.as_str()),
            _ => None,
        }
    }

    /// Returns the filename* if applicable.
    pub fn as_filename_ext(&self) -> (found: Option<&ExtendedValue>)
        ensures
            is_found_ext(found, self@.filename_ext()),
    {
        match self {
            DispositionParam::FilenameExt(value) => Some(value),
            _ => None,
        }
    }

    /// Returns the value of the unrecognized regular parameter if it is
    /// `Unknown` and the `name` matches.
    pub fn as_unknown(&self, name: &str) -> (found: Option<&str>)
        ensures
            is_found(found, self@.unknown(name@)),
    {
        match self {
            DispositionParam::Unknown(own, value) => {
                if eq_ignore_ascii_case(own.as_str(), name) {
                    Some(value.as_str())
                } else {
                    None
                }
            },
            _ => None,
        }
    }

    /// Returns the value of the unrecognized extended parameter if it is
    /// `UnknownExt` and the `name` matches.
    pub fn as_unknown_ext(&self, name: &str) -> (found: Option<&ExtendedValue>)
        ensures
            is_found_ext(found, self@.unknown_ext(name@)),
    {
        match self {
            DispositionParam::UnknownExt(own, value) => {
                if eq_ignore_ascii_case(own.as_str(), name) {
                    Some(value)
                } else {
                    None
                }
            },
            _ => None,
        }
    }
}

impl ContentDisposition {
    /// Returns `true` if it is `Inline`.
    pub fn is_inline(&self) -> (yes: bool)
        ensures
            yes == (self@.disposition is Inline),
    {
        match self.disposition {
            DispositionType::Inline => true,
            _ => false,
        }
    }

    /// Returns `true` if it is `Attachment`.
    pub fn is_attachment(&self) -> (yes: bool)
        ensures
            yes == (self@.disposition is Attachment),
    {
        match self.disposition {
            DispositionType::Attachment => true,
            _ => false,
        }
    }

    /// Returns `true` if it is `FormData`.
    pub fn is_form_data(&self) -> (yes: bool)
        ensures
            yes == (self@.disposition is FormData),
    {
        match self.disposition {
            DispositionType::FormData => true,
            _ => false,
        }
    }

    /// Returns `true` if it is `Ext` and the `disp_type` matches.
    pub fn is_ext(&self, disp_type: &str) -> (yes: bool)
        ensures
            yes == (self@.disposition matches DispositionTypeView::Ext(own) && same_ignoring_case(
                own,
                disp_type@,
            )),
    {
        match &self.disposition {
            DispositionType::Ext(own) => eq_ignore_ascii_case(own.as_str(), disp_type),
            _ => false,
        }
    }

    /// Return the value of *name* if exists.
    pub fn get_name(&self) -> (found: Option<&str>)
        ensures
            is_found(
                found,
                first_of(self@.parameters, |param: DispositionParamView| param.name()),
            ),
    {
        let ghost pick = |param: DispositionParamView| param.name();
        let mut at: usize = 0;
        while at < self.parameters.len()
            invariant
                at <= self.parameters.len(),
                pick == |param: DispositionParamView| param.name(),
                forall|i: int| 0 <= i < at ==> pick(#[trigger] self@.parameters[i]).is_none(),
            decreases self.parameters.len() - at,
        {
            let found = self.parameters[at].as_name();
            assert(self@.parameters[at as int] == self.parameters@[at as int]@);
            if found.is_some() {
                proof {
                    lemma_first_of(self@.parameters, pick, at as int);
                }
                return found;
            }
            at += 1;
        }
        proof {
            lemma_first_of(self@.parameters, pick, at as int);
        }
        None
    }

    /// Return the value of *filename* if exists.
    pub fn get_filename(&self) -> (found: Option<&str>)
        ensures
            is_found(
                found,
                first_of(self@.parameters, |param: DispositionParamView| param.filename()),
            ),
    {
        let ghost pick = |param: DispositionParamView| param.filename();
        let mut at: usize = 0;
        while at < self.parameters.len()
            invariant
                at <= self.parameters.len(),
                pick == |param: DispositionParamView| param.filename(),
                forall|i: int| 0 <= i < at ==> pick(#[trigger] self@.parameters[i]).is_none(),
            decreases self.parameters.len() - at,
        {
            let found = self.parameters[at].as_filename();
            assert(self@.parameters[at as int] == self.parameters@[at as int]@);
            if found.is_some() {
                proof {
                    lemma_first_of(self@.parameters, pick, at as int);
                }
                return found;
            }
            at += 1;
        }
        proof {
            lemma_first_of(self@.parameters, pick, at as int);
        }
        None
    }

    /// Return the value of *filename\** if exists.
    pub fn get_filename_ext(&self) -> (found: Option<&ExtendedValue>)
        ensures
            is_found_ext(
                found,
                first_of(self@.parameters, |param: DispositionParamView| param.filename_ext()),
            ),
    {
        let ghost pick = |param: DispositionParamView| param.filename_ext();
        let mut at: usize = 0;
        while at < self.parameters.len()
            invariant
                at <= self.parameters.len(),
                pick == |param: DispositionParamView| param.filename_ext(),
                forall|i: int| 0 <= i < at ==> pick(#[trigger] self@.parameters[i]).is_none(),
            decreases self.parameters.len() - at,
        {
            let found = self.parameters[at].as_filename_ext();
            assert(self@.parameters[at as int] == self.parameters@[at as int]@);
            if found.is_some() {
                proof {
                    lemma_first_of(self@.parameters, pick, at as int);
                }
                return found;
            }
            at += 1;
        }
        proof {
            lemma_first_of(self@.parameters, pick, at as int);
        }
        None
    }

    /// Return the value of the parameter which the `name` matches.
    pub fn get_unknown(&self, name: &str) -> (found: Option<&str>)
        ensures
            is_found(
                found,
                first_of(self@.parameters, |param: DispositionParamView| param.unknown(name@)),
            ),
    {
        let ghost pick = |param: DispositionParamView| param.unknown(name@);
        let mut at: usize = 0;
        while at < self.parameters.len()
            invariant
                at <= self.parameters.len(),
                pick == |param: DispositionParamView| param.unknown(name@),
                forall|i: int| 0 <= i < at ==> pick(#[trigger] self@.parameters[i]).is_none(),
            decreases self.parameters.len() - at,
        {
            let found = self.parameters[at].as_unknown(name);
            assert(self@.parameters[at as int] == self.parameters@[at as int]@);
            if found.is_some() {
                proof {
                    lemma_first_of(self@.parameters, pick, at as int);
                }
                return found;
            }
            at += 1;
        }
        proof {
            lemma_first_of(self@.parameters, pick, at as int);
        }
        None
    }

    /// Return the value of the extended parameter which the `name` matches.
    pub fn get_unknown_ext(&self, name: &str) -> (found: Option<&ExtendedValue>)
        ensures
            is_found_ext(
                found,
                first_of(
                    self@.parameters,
                    |param: DispositionParamView| param.unknown_ext(name@),
                ),
            ),
    {
        let ghost pick = |param: DispositionParamView| param.unknown_ext(name@);
        let mut at: usize = 0;
        while at < self.parameters.len()
            invariant
                at <= self.parameters.len(),
                pick == |param: DispositionParamView| param.unknown_ext(name@),
                forall|i: int| 0 <= i < at ==> pick(#[trigger] self@.parameters[i]).is_none(),
            decreases self.parameters.len() - at,
        {
            let found = self.parameters[at].as_unknown_ext(name);
            assert(self@.parameters[at as int] == self.parameters@[at as int]@);
            if found.is_some() {
                proof {
                    lemma_first_of(self@.parameters, pick, at as int);
                }
                return found;
            }
            at += 1;
        }
        proof {
            lemma_first_of(self@.parameters, pick, at as int);
        }
        None
    }
}

} // verus!
