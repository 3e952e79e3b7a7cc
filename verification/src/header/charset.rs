use vstd::prelude::*;

use crate::header::chars::same_text;
use crate::text::{to_ascii_uppercase, uppercase};

verus! {

/// A character set, as named in the charset registry of IANA.
#[allow(non_camel_case_types)]
#[derive(Clone, Debug, PartialEq)]
pub enum Charset {
    /// US ASCII
    Us_Ascii,
    /// ISO-8859-1
    Iso_8859_1,
    /// ISO-8859-2
    Iso_8859_2,
    /// ISO-8859-3
    Iso_8859_3,
    /// ISO-8859-4
    Iso_8859_4,
    /// ISO-8859-5
    Iso_8859_5,
    /// ISO-8859-6
    Iso_8859_6,
    /// ISO-8859-7
    Iso_8859_7,
    /// ISO-8859-8
    Iso_8859_8,
    /// ISO-8859-9
    Iso_8859_9,
    /// ISO-8859-10
    Iso_8859_10,
    /// Shift_JIS
    Shift_Jis,
    /// EUC-JP
    Euc_Jp,
    /// ISO-2022-KR
    Iso_2022_Kr,
    /// EUC-KR
    Euc_Kr,
    /// ISO-2022-JP
    Iso_2022_Jp,
    /// ISO-2022-JP-2
    Iso_2022_Jp_2,
    /// ISO-8859-6-E
    Iso_8859_6_E,
    /// ISO-8859-6-I
    Iso_8859_6_I,
    /// ISO-8859-8-E
    Iso_8859_8_E,
    /// ISO-8859-8-I
    Iso_8859_8_I,
    /// GB2312
    Gb2312,
    /// Big5
    Big5,
    /// KOI8-R
    Koi8_R,
    /// A character set that is none of the above, by its name.
    Ext(String),
}

/// A character set as the contracts see it.
#[allow(non_camel_case_types)]
pub enum CharsetView {
    Us_Ascii,
    Iso_8859_1,
    Iso_8859_2,
    Iso_8859_3,
    Iso_8859_4,
    Iso_8859_5,
    Iso_8859_6,
    Iso_8859_7,
    Iso_8859_8,
    Iso_8859_9,
    Iso_8859_10,
    Shift_Jis,
    Euc_Jp,
    Iso_2022_Kr,
    Euc_Kr,
    Iso_2022_Jp,
    Iso_2022_Jp_2,
    Iso_8859_6_E,
    Iso_8859_6_I,
    Iso_8859_8_E,
    Iso_8859_8_I,
    Gb2312,
    Big5,
    Koi8_R,
    Ext(Seq<char>),
}

impl View for Charset {
    type V = CharsetView;

    open spec fn view(&self) -> CharsetView {
        match self {
            Charset::Us_Ascii => CharsetView::Us_Ascii,
            Charset::Iso_8859_1 => CharsetView::Iso_8859_1,
            Charset::Iso_8859_2 => CharsetView::Iso_8859_2,
            Charset::Iso_8859_3 => CharsetView::Iso_8859_3,
            Charset::Iso_8859_4 => CharsetView::Iso_8859_4,
            Charset::Iso_8859_5 => CharsetView::Iso_8859_5,
            Charset::Iso_8859_6 => CharsetView::Iso_8859_6,
            Charset::Iso_8859_7 => CharsetView::Iso_8859_7,
            Charset::Iso_8859_8 => CharsetView::Iso_8859_8,
            Charset::Iso_8859_9 => CharsetView::Iso_8859_9,
            Charset::Iso_8859_10 => CharsetView::Iso_8859_10,
            Charset::Shift_Jis => CharsetView::Shift_Jis,
            Charset::Euc_Jp => CharsetView::Euc_Jp,
            Charset::Iso_2022_Kr => CharsetView::Iso_2022_Kr,
            Charset::Euc_Kr => CharsetView::Euc_Kr,
            Charset::Iso_2022_Jp => CharsetView::Iso_2022_Jp,
            Charset::Iso_2022_Jp_2 => CharsetView::Iso_2022_Jp_2,
            Charset::Iso_8859_6_E => CharsetView::Iso_8859_6_E,
            Charset::Iso_8859_6_I => CharsetView::Iso_8859_6_I,
            Charset::Iso_8859_8_E => CharsetView::Iso_8859_8_E,
            Charset::Iso_8859_8_I => CharsetView::Iso_8859_8_I,
            Charset::Gb2312 => CharsetView::Gb2312,
            Charset::Big5 => CharsetView::Big5,
            Charset::Koi8_R => CharsetView::Koi8_R,
            Charset::Ext(name) => CharsetView::Ext(name@),
        }
    }
}

impl CharsetView {
    /// The name under which the character set is written out.
    pub open spec fn label(self) -> Seq<char> {
        match self {
            CharsetView::Us_Ascii => "US-ASCII"@,
            CharsetView::Iso_8859_1 => "ISO-8859-1"@,
            CharsetView::Iso_8859_2 => "ISO-8859-2"@,
            CharsetView::Iso_8859_3 => "ISO-8859-3"@,
            CharsetView::Iso_8859_4 => "ISO-8859-4"@,
            CharsetView::Iso_8859_5 => "ISO-8859-5"@,
            CharsetView::Iso_8859_6 => "ISO-8859-6"@,
            CharsetView::Iso_8859_7 => "ISO-8859-7"@,
            CharsetView::Iso_8859_8 => "ISO-8859-8"@,
            CharsetView::Iso_8859_9 => "ISO-8859-9"@,
            CharsetView::Iso_8859_10 => "ISO-8859-10"@,
            CharsetView::Shift_Jis => "Shift-JIS"@,
            CharsetView::Euc_Jp => "EUC-JP"@,
            CharsetView::Iso_2022_Kr => "ISO-2022-KR"@,
            CharsetView::Euc_Kr => "EUC-KR"@,
            CharsetView::Iso_2022_Jp => "ISO-2022-JP"@,
            CharsetView::Iso_2022_Jp_2 => "ISO-2022-JP-2"@,
            CharsetView::Iso_8859_6_E => "ISO-8859-6-E"@,
            CharsetView::Iso_8859_6_I => "ISO-8859-6-I"@,
            CharsetView::Iso_8859_8_E => "ISO-8859-8-E"@,
            CharsetView::Iso_8859_8_I => "ISO-8859-8-I"@,
            CharsetView::Gb2312 => "GB2312"@,
            CharsetView::Big5 => "big5"@,
            CharsetView::Koi8_R => "KOI8-R"@,
            CharsetView::Ext(name) => name,
        }
    }

    /// The character set with this name, the name taken in upper case: one
    /// of the registered sets where the name is that under which the set is
    /// written out, and otherwise the set that goes by the name itself.
    pub open spec fn named(upper: Seq<char>) -> CharsetView {
        if upper == "US-ASCII"@ {
            CharsetView::Us_Ascii
        } else if upper == "ISO-8859-1"@ {
            CharsetView::Iso_8859_1
        } else if upper == "ISO-8859-2"@ {
            CharsetView::Iso_8859_2
        } else if upper == "ISO-8859-3"@ {
            CharsetView::Iso_8859_3
        } else if upper == "ISO-8859-4"@ {
            CharsetView::Iso_8859_4
        } else if upper == "ISO-8859-5"@ {
            CharsetView::Iso_8859_5
        } else if upper == "ISO-8859-6"@ {
            CharsetView::Iso_8859_6
        } else if upper == "ISO-8859-7"@ {
            CharsetView::Iso_8859_7
        } else if upper == "ISO-8859-8"@ {
            CharsetView::Iso_8859_8
        } else if upper == "ISO-8859-9"@ {
            CharsetView::Iso_8859_9
        } else if upper == "ISO-8859-10"@ {
            CharsetView::Iso_8859_10
        } else if upper == "SHIFT-JIS"@ {
            CharsetView::Shift_Jis
        } else if upper == "EUC-JP"@ {
            CharsetView::Euc_Jp
        } else if upper == "ISO-2022-KR"@ {
            CharsetView::Iso_2022_Kr
        } else if upper == "EUC-KR"@ {
            CharsetView::Euc_Kr
        } else if upper == "ISO-2022-JP"@ {
            CharsetView::Iso_2022_Jp
        } else if upper == "ISO-2022-JP-2"@ {
            CharsetView::Iso_2022_Jp_2
        } else if upper == "ISO-8859-6-E"@ {
            CharsetView::Iso_8859_6_E
        } else if upper == "ISO-8859-6-I"@ {
            CharsetView::Iso_8859_6_I
        } else if upper == "ISO-8859-8-E"@ {
            CharsetView::Iso_8859_8_E
        } else if upper == "ISO-8859-8-I"@ {
            CharsetView::Iso_8859_8_I
        } else if upper == "GB2312"@ {
            CharsetView::Gb2312
        } else if upper == "big5"@ {
            CharsetView::Big5
        } else if upper == "KOI8-R"@ {
            CharsetView::Koi8_R
        } else {
            CharsetView::Ext(upper)
        }
    }
}

impl Charset {
    /// The name under which the character set is written out.
    pub fn label(&self) -> (label: &str)
        ensures
            label@ == self@.label(),
    {
        match self {
            Charset::Us_Ascii => "US-ASCII",
            Charset::Iso_8859_1 => "ISO-8859-1",
            Charset::Iso_8859_2 => "ISO-8859-2",
            Charset::Iso_8859_3 => "ISO-8859-3",
            Charset::Iso_8859_4 => "ISO-8859-4",
            Charset::Iso_8859_5 => "ISO-8859-5",
            Charset::Iso_8859_6 => "ISO-8859-6",
            Charset::Iso_8859_7 => "ISO-8859-7",
            Charset::Iso_8859_8 => "ISO-8859-8",
            Charset::Iso_8859_9 => "ISO-8859-9",
            Charset::Iso_8859_10 => "ISO-8859-10",
            Charset::Shift_Jis => "Shift-JIS",
            Charset::Euc_Jp => "EUC-JP",
            Charset::Iso_2022_Kr => "ISO-2022-KR",
            Charset::Euc_Kr => "EUC-KR",
            Charset::Iso_2022_Jp => "ISO-2022-JP",
            Charset::Iso_2022_Jp_2 => "ISO-2022-JP-2",
            Charset::Iso_8859_6_E => "ISO-8859-6-E",
            Charset::Iso_8859_6_I => "ISO-8859-6-I",
            Charset::Iso_8859_8_E => "ISO-8859-8-E",
            Charset::Iso_8859_8_I => "ISO-8859-8-I",
            Charset::Gb2312 => "GB2312",
            Charset::Big5 => "big5",
            Charset::Koi8_R => "KOI8-R",
            Charset::Ext(name) => name.as_str(),
        }
    }

    /// The character set with this name. Case does not count; a name that
    /// is not registered is kept, in upper case.
    pub fn from_str(name: &str) -> (charset: Charset)
        ensures
            charset@ == CharsetView::named(uppercase(name@)),
    {
        let upper = to_ascii_uppercase(name);
        let text = upper.as_str();
        if same_text(text, "US-ASCII") {
            Charset::Us_Ascii
        } else if same_text(text, "ISO-8859-1") {
            Charset::Iso_8859_1
        } else if same_text(text, "ISO-8859-2") {
            Charset::Iso_8859_2
        } else if same_text(text, "ISO-8859-3") {
            Charset::Iso_8859_3
        } else if same_text(text, "ISO-8859-4") {
            Charset::Iso_8859_4
        } else if same_text(text, "ISO-8859-5") {
            Charset::Iso_8859_5
        } else if same_text(text, "ISO-8859-6") {
            Charset::Iso_8859_6
        } else if same_text(text, "ISO-8859-7") {
            Charset::Iso_8859_7
        } else if same_text(text, "ISO-8859-8") {
            Charset::Iso_8859_8
        } else if same_text(text, "ISO-8859-9") {
            Charset::Iso_8859_9
        } else if same_text(text, "ISO-8859-10") {
            Charset::Iso_8859_10
        } else if same_text(text, "SHIFT-JIS") {
            Charset::Shift_Jis
        } else if same_text(text, "EUC-JP") {
            Charset::Euc_Jp
        } else if same_text(text, "ISO-2022-KR") {
            Charset::Iso_2022_Kr
        } else if same_text(text, "EUC-KR") {
            Charset::Euc_Kr
        } else if same_text(text, "ISO-2022-JP") {
            Charset::Iso_2022_Jp
        } else if same_text(text, "ISO-2022-JP-2") {
            Charset::Iso_2022_Jp_2
        } else if same_text(text, "ISO-8859-6-E") {
            Charset::Iso_8859_6_E
        } else if same_text(text, "ISO-8859-6-I") {
            Charset::Iso_8859_6_I
        } else if same_text(text, "ISO-8859-8-E") {
            Charset::Iso_8859_8_E
        } else if same_text(text, "ISO-8859-8-I") {
            Charset::Iso_8859_8_I
        } else if same_text(text, "GB2312") {
            Charset::Gb2312
        } else if same_text(text, "big5") {
            Charset::Big5
        } else if same_text(text, "KOI8-R") {
            Charset::Koi8_R
        } else {
            Charset::Ext(upper)
        }
    }
}

} // verus!
