//! The fixed locale table of the help compiler.
//!
//! Each language has a numeric legacy identifier and a display name; a short
//! locale code such as `en-us` selects one, case-insensitively, and the
//! manifest prints the identifier in hexadecimal next to the name.

use vstd::prelude::*;
use vstd::string::StringExecFns;

verus! {

/// A name for what `str::to_lowercase` returns: it depends on the characters
/// of its argument alone.
pub uninterp spec fn lower_of(s: Seq<char>) -> Seq<char>;

/// Relies on `str::to_lowercase`, whose result is a function of the
/// characters of `s` alone.
#[verifier::external_body]
fn lowercase(s: &str) -> (r: String)
    ensures
        r@ == lower_of(s@),
{
    s.to_lowercase()
}

/// The languages the help compiler understands.
#[derive(Debug, Clone, Copy, PartialEq, Eq, Structural)]
pub enum ChmLanguage {
    /// Afrikaans (`af`)
    Af,
    /// Albanian (`sq`)
    Sq,
    /// Arabic (Standard) (`ar`)
    Ar,
    /// Arabic (Saudi Arabia) (`ar-sa`)
    ArSa,
    /// Arabic (Iraq) (`ar-iq`)
    ArIq,
    /// Arabic (Egypt) (`ar-eg`)
    ArEg,
    /// Arabic (Libya) (`ar-ly`)
    ArLy,
    /// Arabic (Algeria) (`ar-dz`)
    ArDz,
    /// Arabic (Morocco) (`ar-ma`)
    ArMa,
    /// Arabic (Tunisia) (`ar-tn`)
    ArTn,
    /// Arabic (Oman) (`ar-om`)
    ArOm,
    /// Arabic (Yemen) (`ar-ye`)
    ArYe,
    /// Arabic (Syria) (`ar-sy`)
    ArSy,
    /// Arabic (Jordan) (`ar-jo`)
    ArJo,
    /// Arabic (Lebanon) (`ar-lb`)
    ArLb,
    /// Arabic (Kuwait) (`ar-kw`)
    ArKw,
    /// Arabic (U.A.E.) (`ar-ae`)
    ArAe,
    /// Arabic (Bahrain) (`ar-bh`)
    ArBh,
    /// Arabic (Qatar) (`ar-qa`)
    ArQa,
    /// Basque (`eu`)
    Eu,
    /// Bulgarian (`bg`)
    Bg,
    /// Belarusian (`be`)
    Be,
    /// Catalan (`ca`)
    Ca,
    /// Chinese (`zh`)
    Zh,
    /// Chinese (Taiwan) (`zh-tw`)
    ZhTw,
    /// Chinese (PRC) (`zh-cn`)
    ZhCn,
    /// Chinese (Hong Kong) (`zh-hk`)
    ZhHk,
    /// Chinese (Singapore) (`zh-sg`)
    ZhSg,
    /// Croatian (`hr`)
    Hr,
    /// Czech (`cs`)
    Cs,
    /// Danish (`da`)
    Da,
    /// Dutch (Standard) (`nl`)
    Nl,
    /// Dutch (Belgian) (`nl-be`)
    NlBe,
    /// English (`en`)
    En,
    /// English (United States) (`en-us`)
    EnUs,
    /// English (British) (`en-gb`)
    EnGb,
    /// English (Australian) (`en-au`)
    EnAu,
    /// English (Canadian) (`en-ca`)
    EnCa,
    /// English (New Zealand) (`en-nz`)
    EnNz,
    /// English (Ireland) (`en-ie`)
    EnIe,
    /// English (South Africa) (`en-za`)
    EnZa,
    /// English (Jamaica) (`en-jm`)
    EnJm,
    /// English (Belize) (`en-bz`)
    EnBz,
    /// English (Trinidad) (`en-tt`)
    EnTt,
    /// Estonian (`et`)
    Et,
    /// Faeroese (`fo`)
    Fo,
    /// Farsi (`fa`)
    Fa,
    /// Finnish (`fi`)
    Fi,
    /// French (Standard) (`fr`)
    Fr,
    /// French (Belgian) (`fr-be`)
    FrBe,
    /// French (Canadian) (`fr-ca`)
    FrCa,
    /// French (Swiss) (`fr-ch`)
    FrCh,
    /// French (Luxembourg) (`fr-lu`)
    FrLu,
    /// Gaelic (Scots) (`gd`)
    Gd,
    /// German (Standard) (`de`)
    De,
    /// German (Swiss) (`de-ch`)
    DeCh,
    /// German (Austrian) (`de-at`)
    DeAt,
    /// German (Luxembourg) (`de-lu`)
    DeLu,
    /// German (Liechtenstein) (`de-li`)
    DeLi,
    /// Greek (`el`)
    El,
    /// Hebrew (`he`)
    He,
    /// Hindi (`hi`)
    Hi,
    /// Hungarian (`hu`)
    Hu,
    /// Icelandic (`is`)
    Is,
    /// Indonesian (`id`)
    In,
    /// Italian (Standard) (`it`)
    It,
    /// Italian (Swiss) (`it-ch`)
    ItCh,
    /// Japanese (`ja`)
    Ja,
    /// Korean (`ko`)
    Ko,
    /// Latvian (`lv`)
    Lv,
    /// Lithuanian (`lt`)
    Lt,
    /// Macedonian (`mk`)
    Mk,
    /// Malaysian (`ms`)
    Ms,
    /// Maltese (`mt`)
    Mt,
    /// Norwegian (Bokmal) (`nb`)
    No,
    /// Polish (`pl`)
    Pl,
    /// Portuguese (Brazilian) (`pt-br`)
    PtBr,
    /// Portuguese (Standard) (`pt`)
    Pt,
    /// Rhaeto-Romanic (`rm`)
    Rm,
    /// Romanian (`ro`)
    Ro,
    /// Romanian (Moldavia) (`ro-mo`)
    RoMo,
    /// Russian (`ru`)
    Ru,
    /// Russian (Moldavia) (`ru-mo`)
    RuMo,
    /// Serbian (`sr`)
    Sr,
    /// Slovak (`sk`)
    Sk,
    /// Slovenian (`sl`)
    Sl,
    /// Sorbian (`sb`)
    Sb,
    /// Spanish (Spain - Modern Sort) (`es`)
    Es,
    /// Spanish (Mexican) (`es-mx`)
    EsMx,
    /// Spanish (Guatemala) (`es-gt`)
    EsGt,
    /// Spanish (Costa Rica) (`es-cr`)
    EsCr,
    /// Spanish (Panama) (`es-pa`)
    EsPa,
    /// Spanish (Dominican Republic) (`es-do`)
    EsDo,
    /// Spanish (Venezuela) (`es-ve`)
    EsVe,
    /// Spanish (Colombia) (`es-co`)
    EsCo,
    /// Spanish (Peru) (`es-pe`)
    EsPe,
    /// Spanish (Argentina) (`es-ar`)
    EsAr,
    /// Spanish (Ecuador) (`es-ec`)
    EsEc,
    /// Spanish (Chile) (`es-cl`)
    EsCl,
    /// Spanish (Uruguay) (`es-uy`)
    EsUy,
    /// Spanish (Paraguay) (`es-py`)
    EsPy,
    /// Spanish (Bolivia) (`es-bo`)
    EsBo,
    /// Spanish (El Salvador) (`es-sv`)
    EsSv,
    /// Spanish (Honduras) (`es-hn`)
    EsHn,
    /// Spanish (Nicaragua) (`es-ni`)
    EsNi,
    /// Spanish (Puerto Rico) (`es-pr`)
    EsPr,
    /// Sutu (`sx`)
    Sx,
    /// Swedish (`sv`)
    Sv,
    /// Swedish (Finland) (`sv-fi`)
    SvFi,
    /// Thai (`th`)
    Th,
    /// Tsonga (`ts`)
    Ts,
    /// Tswana (`tn`)
    Tn,
    /// Turkish (`tr`)
    Tr,
    /// Ukrainian (`uk`)
    Uk,
    /// Urdu (`ur`)
    Ur,
    /// Vietnamese (`vi`)
    Vi,
    /// Xhosa (`xh`)
    Xh,
    /// Yiddish (`ji`)
    Ji,
    /// Zulu (`zu`)
    Zu,
}

impl ChmLanguage {
    /// The numeric legacy locale identifier.
    pub open spec fn spec_id(self) -> u32 {
        match self {
            ChmLanguage::Af => 0x436,
            ChmLanguage::Sq => 0x41c,
            ChmLanguage::Ar => 0x1,
            ChmLanguage::ArSa => 0x401,
            ChmLanguage::ArIq => 0x801,
            ChmLanguage::ArEg => 0xc01,
            ChmLanguage::ArLy => 0x1001,
            ChmLanguage::ArDz => 0x1401,
            ChmLanguage::ArMa => 0x1801,
            ChmLanguage::ArTn => 0x1c01,
            ChmLanguage::ArOm => 0x2001,
            ChmLanguage::ArYe => 0x2401,
            ChmLanguage::ArSy => 0x2801,
            ChmLanguage::ArJo => 0x2c01,
            ChmLanguage::ArLb => 0x3001,
            ChmLanguage::ArKw => 0x3401,
            ChmLanguage::ArAe => 0x3801,
            ChmLanguage::ArBh => 0x3c01,
            ChmLanguage::ArQa => 0x4001,
            ChmLanguage::Eu => 0x42d,
            ChmLanguage::Bg => 0x402,
            ChmLanguage::Be => 0x423,
            ChmLanguage::Ca => 0x403,
            ChmLanguage::Zh => 0x4,
            ChmLanguage::ZhTw => 0x404,
            ChmLanguage::ZhCn => 0x804,
            ChmLanguage::ZhHk => 0xc04,
            ChmLanguage::ZhSg => 0x1004,
            ChmLanguage::Hr => 0x41a,
            ChmLanguage::Cs => 0x405,
            ChmLanguage::Da => 0x406,
            ChmLanguage::Nl => 0x413,
            ChmLanguage::NlBe => 0x813,
            ChmLanguage::En => 0x9,
            ChmLanguage::EnUs => 0x409,
            ChmLanguage::EnGb => 0x809,
            ChmLanguage::EnAu => 0xc09,
            ChmLanguage::EnCa => 0x1009,
            ChmLanguage::EnNz => 0x1409,
            ChmLanguage::EnIe => 0x1809,
            ChmLanguage::EnZa => 0x1c09,
            ChmLanguage::EnJm => 0x2009,
            ChmLanguage::EnBz => 0x2809,
            ChmLanguage::EnTt => 0x2c09,
            ChmLanguage::Et => 0x425,
            ChmLanguage::Fo => 0x438,
            ChmLanguage::Fa => 0x429,
            ChmLanguage::Fi => 0x40b,
            ChmLanguage::Fr => 0x40c,
            ChmLanguage::FrBe => 0x80c,
            ChmLanguage::FrCa => 0xc0c,
            ChmLanguage::FrCh => 0x100c,
            ChmLanguage::FrLu => 0x140c,
            ChmLanguage::Gd => 0x43c,
            ChmLanguage::De => 0x407,
            ChmLanguage::DeCh => 0x807,
            ChmLanguage::DeAt => 0xc07,
            ChmLanguage::DeLu => 0x1007,
            ChmLanguage::DeLi => 0x1407,
            ChmLanguage::El => 0x408,
            ChmLanguage::He => 0x40d,
            ChmLanguage::Hi => 0x439,
            ChmLanguage::Hu => 0x40e,
            ChmLanguage::Is => 0x40f,
            ChmLanguage::In => 0x421,
            ChmLanguage::It => 0x410,
            ChmLanguage::ItCh => 0x810,
            ChmLanguage::Ja => 0x411,
            ChmLanguage::Ko => 0x412,
            ChmLanguage::Lv => 0x426,
            ChmLanguage::Lt => 0x427,
            ChmLanguage::Mk => 0x42f,
            ChmLanguage::Ms => 0x43e,
            ChmLanguage::Mt => 0x43a,
            ChmLanguage::No => 0x414,
            ChmLanguage::Pl => 0x415,
            ChmLanguage::PtBr => 0x416,
            ChmLanguage::Pt => 0x816,
            ChmLanguage::Rm => 0x417,
            ChmLanguage::Ro => 0x418,
            ChmLanguage::RoMo => 0x818,
            ChmLanguage::Ru => 0x419,
            ChmLanguage::RuMo => 0x819,
            ChmLanguage::Sr => 0xc1a,
            ChmLanguage::Sk => 0x41b,
            ChmLanguage::Sl => 0x424,
            ChmLanguage::Sb => 0x42e,
            ChmLanguage::Es => 0x40a,
            ChmLanguage::EsMx => 0x80a,
            ChmLanguage::EsGt => 0x100a,
            ChmLanguage::EsCr => 0x140a,
            ChmLanguage::EsPa => 0x180a,
            ChmLanguage::EsDo => 0x1c0a,
            ChmLanguage::EsVe => 0x200a,
            ChmLanguage::EsCo => 0x240a,
            ChmLanguage::EsPe => 0x280a,
            ChmLanguage::EsAr => 0x2c0a,
            ChmLanguage::EsEc => 0x300a,
            ChmLanguage::EsCl => 0x340a,
            ChmLanguage::EsUy => 0x380a,
            ChmLanguage::EsPy => 0x3c0a,
            ChmLanguage::EsBo => 0x400a,
            ChmLanguage::EsSv => 0x440a,
            ChmLanguage::EsHn => 0x480a,
            ChmLanguage::EsNi => 0x4c0a,
            ChmLanguage::EsPr => 0x500a,
            ChmLanguage::Sx => 0x430,
            ChmLanguage::Sv => 0x41d,
            ChmLanguage::SvFi => 0x81d,
            ChmLanguage::Th => 0x41e,
            ChmLanguage::Ts => 0x431,
            ChmLanguage::Tn => 0x432,
            ChmLanguage::Tr => 0x41f,
            ChmLanguage::Uk => 0x422,
            ChmLanguage::Ur => 0x420,
            ChmLanguage::Vi => 0x42a,
            ChmLanguage::Xh => 0x434,
            ChmLanguage::Ji => 0x43d,
            ChmLanguage::Zu => 0x435,
        }
    }

    /// The display name of the language.
    pub open spec fn spec_name(self) -> Seq<char> {
        match self {
            ChmLanguage::Af => "Afrikaans"@,
            ChmLanguage::Sq => "Albanian"@,
            ChmLanguage::Ar => "Arabic (Standard)"@,
            ChmLanguage::ArSa => "Arabic (Saudi Arabia)"@,
            ChmLanguage::ArIq => "Arabic (Iraq)"@,
            ChmLanguage::ArEg => "Arabic (Egypt)"@,
            ChmLanguage::ArLy => "Arabic (Libya)"@,
            ChmLanguage::ArDz => "Arabic (Algeria)"@,
            ChmLanguage::ArMa => "Arabic (Morocco)"@,
            ChmLanguage::ArTn => "Arabic (Tunisia)"@,
            ChmLanguage::ArOm => "Arabic (Oman)"@,
            ChmLanguage::ArYe => "Arabic (Yemen)"@,
            ChmLanguage::ArSy => "Arabic (Syria)"@,
            ChmLanguage::ArJo => "Arabic (Jordan)"@,
            ChmLanguage::ArLb => "Arabic (Lebanon)"@,
            ChmLanguage::ArKw => "Arabic (Kuwait)"@,
            ChmLanguage::ArAe => "Arabic (U.A.E.)"@,
            ChmLanguage::ArBh => "Arabic (Bahrain)"@,
            ChmLanguage::ArQa => "Arabic (Qatar)"@,
            ChmLanguage::Eu => "Basque"@,
            ChmLanguage::Bg => "Bulgarian"@,
            ChmLanguage::Be => "Belarusian"@,
            ChmLanguage::Ca => "Catalan"@,
            ChmLanguage::Zh => "Chinese"@,
            ChmLanguage::ZhTw => "Chinese (Taiwan)"@,
            ChmLanguage::ZhCn => "Chinese (PRC)"@,
            ChmLanguage::ZhHk => "Chinese (Hong Kong)"@,
            ChmLanguage::ZhSg => "Chinese (Singapore)"@,
            ChmLanguage::Hr => "Croatian"@,
            ChmLanguage::Cs => "Czech"@,
            ChmLanguage::Da => "Danish"@,
            ChmLanguage::Nl => "Dutch (Standard)"@,
            ChmLanguage::NlBe => "Dutch (Belgian)"@,
            ChmLanguage::En => "English"@,
            ChmLanguage::EnUs => "English (United States)"@,
            ChmLanguage::EnGb => "English (British)"@,
            ChmLanguage::EnAu => "English (Australian)"@,
            ChmLanguage::EnCa => "English (Canadian)"@,
            ChmLanguage::EnNz => "English (New Zealand)"@,
            ChmLanguage::EnIe => "English (Ireland)"@,
            ChmLanguage::EnZa => "English (South Africa)"@,
            ChmLanguage::EnJm => "English (Jamaica)"@,
            ChmLanguage::EnBz => "English (Belize)"@,
            ChmLanguage::EnTt => "English (Trinidad)"@,
            ChmLanguage::Et => "Estonian"@,
            ChmLanguage::Fo => "Faeroese"@,
            ChmLanguage::Fa => "Farsi"@,
            ChmLanguage::Fi => "Finnish"@,
            ChmLanguage::Fr => "French (Standard)"@,
            ChmLanguage::FrBe => "French (Belgian)"@,
            ChmLanguage::FrCa => "French (Canadian)"@,
            ChmLanguage::FrCh => "French (Swiss)"@,
            ChmLanguage::FrLu => "French (Luxembourg)"@,
            ChmLanguage::Gd => "Gaelic (Scots)"@,
            ChmLanguage::De => "German (Standard)"@,
            ChmLanguage::DeCh => "German (Swiss)"@,
            ChmLanguage::DeAt => "German (Austrian)"@,
            ChmLanguage::DeLu => "German (Luxembourg)"@,
            ChmLanguage::DeLi => "German (Liechtenstein)"@,
            ChmLanguage::El => "Greek"@,
            ChmLanguage::He => "Hebrew"@,
            ChmLanguage::Hi => "Hindi"@,
            ChmLanguage::Hu => "Hungarian"@,
            ChmLanguage::Is => "Icelandic"@,
            ChmLanguage::In => "Indonesian"@,
            ChmLanguage::It => "Italian (Standard)"@,
            ChmLanguage::ItCh => "Italian (Swiss)"@,
            ChmLanguage::Ja => "Japanese"@,
            ChmLanguage::Ko => "Korean"@,
            ChmLanguage::Lv => "Latvian"@,
            ChmLanguage::Lt => "Lithuanian"@,
            ChmLanguage::Mk => "Macedonian"@,
            ChmLanguage::Ms => "Malaysian"@,
            ChmLanguage::Mt => "Maltese"@,
            ChmLanguage::No => "Norwegian (Bokmal)"@,
            ChmLanguage::Pl => "Polish"@,
            ChmLanguage::PtBr => "Portuguese (Brazilian)"@,
            ChmLanguage::Pt => "Portuguese (Standard)"@,
            ChmLanguage::Rm => "Rhaeto-Romanic"@,
            ChmLanguage::Ro => "Romanian"@,
            ChmLanguage::RoMo => "Romanian (Moldavia)"@,
            ChmLanguage::Ru => "Russian"@,
            ChmLanguage::RuMo => "Russian (Moldavia)"@,
            ChmLanguage::Sr => "Serbian"@,
            ChmLanguage::Sk => "Slovak"@,
            ChmLanguage::Sl => "Slovenian"@,
            ChmLanguage::Sb => "Sorbian"@,
            ChmLanguage::Es => "Spanish (Spain - Modern Sort)"@,
            ChmLanguage::EsMx => "Spanish (Mexican)"@,
            ChmLanguage::EsGt => "Spanish (Guatemala)"@,
            ChmLanguage::EsCr => "Spanish (Costa Rica)"@,
            ChmLanguage::EsPa => "Spanish (Panama)"@,
            ChmLanguage::EsDo => "Spanish (Dominican Republic)"@,
            ChmLanguage::EsVe => "Spanish (Venezuela)"@,
            ChmLanguage::EsCo => "Spanish (Colombia)"@,
            ChmLanguage::EsPe => "Spanish (Peru)"@,
            ChmLanguage::EsAr => "Spanish (Argentina)"@,
            ChmLanguage::EsEc => "Spanish (Ecuador)"@,
            ChmLanguage::EsCl => "Spanish (Chile)"@,
            ChmLanguage::EsUy => "Spanish (Uruguay)"@,
            ChmLanguage::EsPy => "Spanish (Paraguay)"@,
            ChmLanguage::EsBo => "Spanish (Bolivia)"@,
            ChmLanguage::EsSv => "Spanish (El Salvador)"@,
            ChmLanguage::EsHn => "Spanish (Honduras)"@,
            ChmLanguage::EsNi => "Spanish (Nicaragua)"@,
            ChmLanguage::EsPr => "Spanish (Puerto Rico)"@,
            ChmLanguage::Sx => "Sutu"@,
            ChmLanguage::Sv => "Swedish"@,
            ChmLanguage::SvFi => "Swedish (Finland)"@,
            ChmLanguage::Th => "Thai"@,
            ChmLanguage::Ts => "Tsonga"@,
            ChmLanguage::Tn => "Tswana"@,
            ChmLanguage::Tr => "Turkish"@,
            ChmLanguage::Uk => "Ukrainian"@,
            ChmLanguage::Ur => "Urdu"@,
            ChmLanguage::Vi => "Vietnamese"@,
            ChmLanguage::Xh => "Xhosa"@,
            ChmLanguage::Ji => "Yiddish"@,
            ChmLanguage::Zu => "Zulu"@,
        }
    }

    /// The language selected by a lower-case locale code, if any.
    pub open spec fn spec_from_code(s: Seq<char>) -> Option<ChmLanguage> {
        if s == "af"@ {
            Some(ChmLanguage::Af)
        } else if s == "sq"@ {
            Some(ChmLanguage::Sq)
        } else if s == "ar"@ {
            Some(ChmLanguage::Ar)
        } else if s == "ar-sa"@ {
            Some(ChmLanguage::ArSa)
        } else if s == "ar-iq"@ {
            Some(ChmLanguage::ArIq)
        } else if s == "ar-eg"@ {
            Some(ChmLanguage::ArEg)
        } else if s == "ar-ly"@ {
            Some(ChmLanguage::ArLy)
        } else if s == "ar-dz"@ {
            Some(ChmLanguage::ArDz)
        } else if s == "ar-ma"@ {
            Some(ChmLanguage::ArMa)
        } else if s == "ar-tn"@ {
            Some(ChmLanguage::ArTn)
        } else if s == "ar-om"@ {
            Some(ChmLanguage::ArOm)
        } else if s == "ar-ye"@ {
            Some(ChmLanguage::ArYe)
        } else if s == "ar-sy"@ {
            Some(ChmLanguage::ArSy)
        } else if s == "ar-jo"@ {
            Some(ChmLanguage::ArJo)
        } else if s == "ar-lb"@ {
            Some(ChmLanguage::ArLb)
        } else if s == "ar-kw"@ {
            Some(ChmLanguage::ArKw)
        } else if s == "ar-ae"@ {
            Some(ChmLanguage::ArAe)
        } else if s == "ar-bh"@ {
            Some(ChmLanguage::ArBh)
        } else if s == "ar-qa"@ {
            Some(ChmLanguage::ArQa)
        } else if s == "eu"@ {
            Some(ChmLanguage::Eu)
        } else if s == "bg"@ {
            Some(ChmLanguage::Bg)
        } else if s == "be"@ {
            Some(ChmLanguage::Be)
        } else if s == "ca"@ {
            Some(ChmLanguage::Ca)
        } else if s == "zh"@ {
            Some(ChmLanguage::Zh)
        } else if s == "zh-tw"@ {
            Some(ChmLanguage::ZhTw)
        } else if s == "zh-cn"@ {
            Some(ChmLanguage::ZhCn)
        } else if s == "zh-hk"@ {
            Some(ChmLanguage::ZhHk)
        } else if s == "zh-sg"@ {
            Some(ChmLanguage::ZhSg)
        } else if s == "hr"@ {
            Some(ChmLanguage::Hr)
        } else if s == "cs"@ {
            Some(ChmLanguage::Cs)
        } else if s == "da"@ {
            Some(ChmLanguage::Da)
        } else if s == "nl"@ {
            Some(ChmLanguage::Nl)
        } else if s == "nl-be"@ {
            Some(ChmLanguage::NlBe)
        } else if s == "en"@ {
            Some(ChmLanguage::En)
        } else if s == "en-us"@ {
            Some(ChmLanguage::EnUs)
        } else if s == "en-gb"@ {
            Some(ChmLanguage::EnGb)
        } else if s == "en-au"@ {
            Some(ChmLanguage::EnAu)
        } else if s == "en-ca"@ {
            Some(ChmLanguage::EnCa)
        } else if s == "en-nz"@ {
            Some(ChmLanguage::EnNz)
        } else if s == "en-ie"@ {
            Some(ChmLanguage::EnIe)
        } else if s == "en-za"@ {
            Some(ChmLanguage::EnZa)
        } else if s == "en-jm"@ {
            Some(ChmLanguage::EnJm)
        } else if s == "en-bz"@ {
            Some(ChmLanguage::EnBz)
        } else if s == "en-tt"@ {
            Some(ChmLanguage::EnTt)
        } else if s == "et"@ {
            Some(ChmLanguage::Et)
        } else if s == "fo"@ {
            Some(ChmLanguage::Fo)
        } else if s == "fa"@ {
            Some(ChmLanguage::Fa)
        } else if s == "fi"@ {
            Some(ChmLanguage::Fi)
        } else if s == "fr"@ {
            Some(ChmLanguage::Fr)
        } else if s == "fr-be"@ {
            Some(ChmLanguage::FrBe)
        } else if s == "fr-ca"@ {
            Some(ChmLanguage::FrCa)
        } else if s == "fr-ch"@ {
            Some(ChmLanguage::FrCh)
        } else if s == "fr-lu"@ {
            Some(ChmLanguage::FrLu)
        } else if s == "gd"@ {
            Some(ChmLanguage::Gd)
        } else if s == "de"@ {
            Some(ChmLanguage::De)
        } else if s == "de-ch"@ {
            Some(ChmLanguage::DeCh)
        } else if s == "de-at"@ {
            Some(ChmLanguage::DeAt)
        } else if s == "de-lu"@ {
            Some(ChmLanguage::DeLu)
        } else if s == "de-li"@ {
            Some(ChmLanguage::DeLi)
        } else if s == "el"@ {
            Some(ChmLanguage::El)
        } else if s == "he"@ {
            Some(ChmLanguage::He)
        } else if s == "hi"@ {
            Some(ChmLanguage::Hi)
        } else if s == "hu"@ {
            Some(ChmLanguage::Hu)
        } else if s == "is"@ {
            Some(ChmLanguage::Is)
        } else if s == "id"@ {
            Some(ChmLanguage::In)
        } else if s == "it"@ {
            Some(ChmLanguage::It)
        } else if s == "it-ch"@ {
            Some(ChmLanguage::ItCh)
        } else if s == "ja"@ {
            Some(ChmLanguage::Ja)
        } else if s == "ko"@ {
            Some(ChmLanguage::Ko)
        } else if s == "lv"@ {
            Some(ChmLanguage::Lv)
        } else if s == "lt"@ {
            Some(ChmLanguage::Lt)
        } else if s == "mk"@ {
            Some(ChmLanguage::Mk)
        } else if s == "ms"@ {
            Some(ChmLanguage::Ms)
        } else if s == "mt"@ {
            Some(ChmLanguage::Mt)
        } else if s == "nb"@ {
            Some(ChmLanguage::No)
        } else if s == "pl"@ {
            Some(ChmLanguage::Pl)
        } else if s == "pt-br"@ {
            Some(ChmLanguage::PtBr)
        } else if s == "pt"@ {
            Some(ChmLanguage::Pt)
        } else if s == "rm"@ {
            Some(ChmLanguage::Rm)
        } else if s == "ro"@ {
            Some(ChmLanguage::Ro)
        } else if s == "ro-mo"@ {
            Some(ChmLanguage::RoMo)
        } else if s == "ru"@ {
            Some(ChmLanguage::Ru)
        } else if s == "ru-mo"@ {
            Some(ChmLanguage::RuMo)
        } else if s == "sr"@ {
            Some(ChmLanguage::Sr)
        } else if s == "sk"@ {
            Some(ChmLanguage::Sk)
        } else if s == "sl"@ {
            Some(ChmLanguage::Sl)
        } else if s == "sb"@ {
            Some(ChmLanguage::Sb)
        } else if s == "es"@ {
            Some(ChmLanguage::Es)
        } else if s == "es-mx"@ {
            Some(ChmLanguage::EsMx)
        } else if s == "es-gt"@ {
            Some(ChmLanguage::EsGt)
        } else if s == "es-cr"@ {
            Some(ChmLanguage::EsCr)
        } else if s == "es-pa"@ {
            Some(ChmLanguage::EsPa)
        } else if s == "es-do"@ {
            Some(ChmLanguage::EsDo)
        } else if s == "es-ve"@ {
            Some(ChmLanguage::EsVe)
        } else if s == "es-co"@ {
            Some(ChmLanguage::EsCo)
        } else if s == "es-pe"@ {
            Some(ChmLanguage::EsPe)
        } else if s == "es-ar"@ {
            Some(ChmLanguage::EsAr)
        } else if s == "es-ec"@ {
            Some(ChmLanguage::EsEc)
        } else if s == "es-cl"@ {
            Some(ChmLanguage::EsCl)
        } else if s == "es-uy"@ {
            Some(ChmLanguage::EsUy)
        } else if s == "es-py"@ {
            Some(ChmLanguage::EsPy)
        } else if s == "es-bo"@ {
            Some(ChmLanguage::EsBo)
        } else if s == "es-sv"@ {
            Some(ChmLanguage::EsSv)
        } else if s == "es-hn"@ {
            Some(ChmLanguage::EsHn)
        } else if s == "es-ni"@ {
            Some(ChmLanguage::EsNi)
        } else if s == "es-pr"@ {
            Some(ChmLanguage::EsPr)
        } else if s == "sx"@ {
            Some(ChmLanguage::Sx)
        } else if s == "sv"@ {
            Some(ChmLanguage::Sv)
        } else if s == "sv-fi"@ {
            Some(ChmLanguage::SvFi)
        } else if s == "th"@ {
            Some(ChmLanguage::Th)
        } else if s == "ts"@ {
            Some(ChmLanguage::Ts)
        } else if s == "tn"@ {
            Some(ChmLanguage::Tn)
        } else if s == "tr"@ {
            Some(ChmLanguage::Tr)
        } else if s == "uk"@ {
            Some(ChmLanguage::Uk)
        } else if s == "ur"@ {
            Some(ChmLanguage::Ur)
        } else if s == "vi"@ {
            Some(ChmLanguage::Vi)
        } else if s == "xh"@ {
            Some(ChmLanguage::Xh)
        } else if s == "ji"@ {
            Some(ChmLanguage::Ji)
        } else if s == "zu"@ {
            Some(ChmLanguage::Zu)
        } else {
            None
        }
    }

    /// The numeric legacy locale identifier.
    pub fn id(&self) -> (r: u32)
        ensures
            r == self.spec_id(),
    {
        match self {
            ChmLanguage::Af => 0x436,
            ChmLanguage::Sq => 0x41c,
            ChmLanguage::Ar => 0x1,
            ChmLanguage::ArSa => 0x401,
            ChmLanguage::ArIq => 0x801,
            ChmLanguage::ArEg => 0xc01,
            ChmLanguage::ArLy => 0x1001,
            ChmLanguage::ArDz => 0x1401,
            ChmLanguage::ArMa => 0x1801,
            ChmLanguage::ArTn => 0x1c01,
            ChmLanguage::ArOm => 0x2001,
            ChmLanguage::ArYe => 0x2401,
            ChmLanguage::ArSy => 0x2801,
            ChmLanguage::ArJo => 0x2c01,
            ChmLanguage::ArLb => 0x3001,
            ChmLanguage::ArKw => 0x3401,
            ChmLanguage::ArAe => 0x3801,
            ChmLanguage::ArBh => 0x3c01,
            ChmLanguage::ArQa => 0x4001,
            ChmLanguage::Eu => 0x42d,
            ChmLanguage::Bg => 0x402,
            ChmLanguage::Be => 0x423,
            ChmLanguage::Ca => 0x403,
            ChmLanguage::Zh => 0x4,
            ChmLanguage::ZhTw => 0x404,
            ChmLanguage::ZhCn => 0x804,
            ChmLanguage::ZhHk => 0xc04,
            ChmLanguage::ZhSg => 0x1004,
            ChmLanguage::Hr => 0x41a,
            ChmLanguage::Cs => 0x405,
            ChmLanguage::Da => 0x406,
            ChmLanguage::Nl => 0x413,
            ChmLanguage::NlBe => 0x813,
            ChmLanguage::En => 0x9,
            ChmLanguage::EnUs => 0x409,
            ChmLanguage::EnGb => 0x809,
            ChmLanguage::EnAu => 0xc09,
            ChmLanguage::EnCa => 0x1009,
            ChmLanguage::EnNz => 0x1409,
            ChmLanguage::EnIe => 0x1809,
            ChmLanguage::EnZa => 0x1c09,
            ChmLanguage::EnJm => 0x2009,
            ChmLanguage::EnBz => 0x2809,
            ChmLanguage::EnTt => 0x2c09,
            ChmLanguage::Et => 0x425,
            ChmLanguage::Fo => 0x438,
            ChmLanguage::Fa => 0x429,
            ChmLanguage::Fi => 0x40b,
            ChmLanguage::Fr => 0x40c,
            ChmLanguage::FrBe => 0x80c,
            ChmLanguage::FrCa => 0xc0c,
            ChmLanguage::FrCh => 0x100c,
            ChmLanguage::FrLu => 0x140c,
            ChmLanguage::Gd => 0x43c,
            ChmLanguage::De => 0x407,
            ChmLanguage::DeCh => 0x807,
            ChmLanguage::DeAt => 0xc07,
            ChmLanguage::DeLu => 0x1007,
            ChmLanguage::DeLi => 0x1407,
            ChmLanguage::El => 0x408,
            ChmLanguage::He => 0x40d,
            ChmLanguage::Hi => 0x439,
            ChmLanguage::Hu => 0x40e,
            ChmLanguage::Is => 0x40f,
            ChmLanguage::In => 0x421,
            ChmLanguage::It => 0x410,
            ChmLanguage::ItCh => 0x810,
            ChmLanguage::Ja => 0x411,
            ChmLanguage::Ko => 0x412,
            ChmLanguage::Lv => 0x426,
            ChmLanguage::Lt => 0x427,
            ChmLanguage::Mk => 0x42f,
            ChmLanguage::Ms => 0x43e,
            ChmLanguage::Mt => 0x43a,
            ChmLanguage::No => 0x414,
            ChmLanguage::Pl => 0x415,
            ChmLanguage::PtBr => 0x416,
            ChmLanguage::Pt => 0x816,
            ChmLanguage::Rm => 0x417,
            ChmLanguage::Ro => 0x418,
            ChmLanguage::RoMo => 0x818,
            ChmLanguage::Ru => 0x419,
            ChmLanguage::RuMo => 0x819,
            ChmLanguage::Sr => 0xc1a,
            ChmLanguage::Sk => 0x41b,
            ChmLanguage::Sl => 0x424,
            ChmLanguage::Sb => 0x42e,
            ChmLanguage::Es => 0x40a,
            ChmLanguage::EsMx => 0x80a,
            ChmLanguage::EsGt => 0x100a,
            ChmLanguage::EsCr => 0x140a,
            ChmLanguage::EsPa => 0x180a,
            ChmLanguage::EsDo => 0x1c0a,
            ChmLanguage::EsVe => 0x200a,
            ChmLanguage::EsCo => 0x240a,
            ChmLanguage::EsPe => 0x280a,
            ChmLanguage::EsAr => 0x2c0a,
            ChmLanguage::EsEc => 0x300a,
            ChmLanguage::EsCl => 0x340a,
            ChmLanguage::EsUy => 0x380a,
            ChmLanguage::EsPy => 0x3c0a,
            ChmLanguage::EsBo => 0x400a,
            ChmLanguage::EsSv => 0x440a,
            ChmLanguage::EsHn => 0x480a,
            ChmLanguage::EsNi => 0x4c0a,
            ChmLanguage::EsPr => 0x500a,
            ChmLanguage::Sx => 0x430,
            ChmLanguage::Sv => 0x41d,
            ChmLanguage::SvFi => 0x81d,
            ChmLanguage::Th => 0x41e,
            ChmLanguage::Ts => 0x431,
            ChmLanguage::Tn => 0x432,
            ChmLanguage::Tr => 0x41f,
            ChmLanguage::Uk => 0x422,
            ChmLanguage::Ur => 0x420,
            ChmLanguage::Vi => 0x42a,
            ChmLanguage::Xh => 0x434,
            ChmLanguage::Ji => 0x43d,
            ChmLanguage::Zu => 0x435,
        }
    }

    /// Returns the full name of the language.
    pub fn name(&self) -> (r: &'static str)
        ensures
            r@ == self.spec_name(),
    {
        match self {
            ChmLanguage::Af => "Afrikaans",
            ChmLanguage::Sq => "Albanian",
            ChmLanguage::Ar => "Arabic (Standard)",
            ChmLanguage::ArSa => "Arabic (Saudi Arabia)",
            ChmLanguage::ArIq => "Arabic (Iraq)",
            ChmLanguage::ArEg => "Arabic (Egypt)",
            ChmLanguage::ArLy => "Arabic (Libya)",
            ChmLanguage::ArDz => "Arabic (Algeria)",
            ChmLanguage::ArMa => "Arabic (Morocco)",
            ChmLanguage::ArTn => "Arabic (Tunisia)",
            ChmLanguage::ArOm => "Arabic (Oman)",
            ChmLanguage::ArYe => "Arabic (Yemen)",
            ChmLanguage::ArSy => "Arabic (Syria)",
            ChmLanguage::ArJo => "Arabic (Jordan)",
            ChmLanguage::ArLb => "Arabic (Lebanon)",
            ChmLanguage::ArKw => "Arabic (Kuwait)",
            ChmLanguage::ArAe => "Arabic (U.A.E.)",
            ChmLanguage::ArBh => "Arabic (Bahrain)",
            ChmLanguage::ArQa => "Arabic (Qatar)",
            ChmLanguage::Eu => "Basque",
            ChmLanguage::Bg => "Bulgarian",
            ChmLanguage::Be => "Belarusian",
            ChmLanguage::Ca => "Catalan",
            ChmLanguage::Zh => "Chinese",
            ChmLanguage::ZhTw => "Chinese (Taiwan)",
            ChmLanguage::ZhCn => "Chinese (PRC)",
            ChmLanguage::ZhHk => "Chinese (Hong Kong)",
            ChmLanguage::ZhSg => "Chinese (Singapore)",
            ChmLanguage::Hr => "Croatian",
            ChmLanguage::Cs => "Czech",
            ChmLanguage::Da => "Danish",
            ChmLanguage::Nl => "Dutch (Standard)",
            ChmLanguage::NlBe => "Dutch (Belgian)",
            ChmLanguage::En => "English",
            ChmLanguage::EnUs => "English (United States)",
            ChmLanguage::EnGb => "English (British)",
            ChmLanguage::EnAu => "English (Australian)",
            ChmLanguage::EnCa => "English (Canadian)",
            ChmLanguage::EnNz => "English (New Zealand)",
            ChmLanguage::EnIe => "English (Ireland)",
            ChmLanguage::EnZa => "English (South Africa)",
            ChmLanguage::EnJm => "English (Jamaica)",
            ChmLanguage::EnBz => "English (Belize)",
            ChmLanguage::EnTt => "English (Trinidad)",
            ChmLanguage::Et => "Estonian",
            ChmLanguage::Fo => "Faeroese",
            ChmLanguage::Fa => "Farsi",
            ChmLanguage::Fi => "Finnish",
            ChmLanguage::Fr => "French (Standard)",
            ChmLanguage::FrBe => "French (Belgian)",
            ChmLanguage::FrCa => "French (Canadian)",
            ChmLanguage::FrCh => "French (Swiss)",
            ChmLanguage::FrLu => "French (Luxembourg)",
            ChmLanguage::Gd => "Gaelic (Scots)",
            ChmLanguage::De => "German (Standard)",
            ChmLanguage::DeCh => "German (Swiss)",
            ChmLanguage::DeAt => "German (Austrian)",
            ChmLanguage::DeLu => "German (Luxembourg)",
            ChmLanguage::DeLi => "German (Liechtenstein)",
            ChmLanguage::El => "Greek",
            ChmLanguage::He => "Hebrew",
            ChmLanguage::Hi => "Hindi",
            ChmLanguage::Hu => "Hungarian",
            ChmLanguage::Is => "Icelandic",
            ChmLanguage::In => "Indonesian",
            ChmLanguage::It => "Italian (Standard)",
            ChmLanguage::ItCh => "Italian (Swiss)",
            ChmLanguage::Ja => "Japanese",
            ChmLanguage::Ko => "Korean",
            ChmLanguage::Lv => "Latvian",
            ChmLanguage::Lt => "Lithuanian",
            ChmLanguage::Mk => "Macedonian",
            ChmLanguage::Ms => "Malaysian",
            ChmLanguage::Mt => "Maltese",
            ChmLanguage::No => "Norwegian (Bokmal)",
            ChmLanguage::Pl => "Polish",
            ChmLanguage::PtBr => "Portuguese (Brazilian)",
            ChmLanguage::Pt => "Portuguese (Standard)",
            ChmLanguage::Rm => "Rhaeto-Romanic",
            ChmLanguage::Ro => "Romanian",
            ChmLanguage::RoMo => "Romanian (Moldavia)",
            ChmLanguage::Ru => "Russian",
            ChmLanguage::RuMo => "Russian (Moldavia)",
            ChmLanguage::Sr => "Serbian",
            ChmLanguage::Sk => "Slovak",
            ChmLanguage::Sl => "Slovenian",
            ChmLanguage::Sb => "Sorbian",
            ChmLanguage::Es => "Spanish (Spain - Modern Sort)",
            ChmLanguage::EsMx => "Spanish (Mexican)",
            ChmLanguage::EsGt => "Spanish (Guatemala)",
            ChmLanguage::EsCr => "Spanish (Costa Rica)",
            ChmLanguage::EsPa => "Spanish (Panama)",
            ChmLanguage::EsDo => "Spanish (Dominican Republic)",
            ChmLanguage::EsVe => "Spanish (Venezuela)",
            ChmLanguage::EsCo => "Spanish (Colombia)",
            ChmLanguage::EsPe => "Spanish (Peru)",
            ChmLanguage::EsAr => "Spanish (Argentina)",
            ChmLanguage::EsEc => "Spanish (Ecuador)",
            ChmLanguage::EsCl => "Spanish (Chile)",
            ChmLanguage::EsUy => "Spanish (Uruguay)",
            ChmLanguage::EsPy => "Spanish (Paraguay)",
            ChmLanguage::EsBo => "Spanish (Bolivia)",
            ChmLanguage::EsSv => "Spanish (El Salvador)",
            ChmLanguage::EsHn => "Spanish (Honduras)",
            ChmLanguage::EsNi => "Spanish (Nicaragua)",
            ChmLanguage::EsPr => "Spanish (Puerto Rico)",
            ChmLanguage::Sx => "Sutu",
            ChmLanguage::Sv => "Swedish",
            ChmLanguage::SvFi => "Swedish (Finland)",
            ChmLanguage::Th => "Thai",
            ChmLanguage::Ts => "Tsonga",
            ChmLanguage::Tn => "Tswana",
            ChmLanguage::Tr => "Turkish",
            ChmLanguage::Uk => "Ukrainian",
            ChmLanguage::Ur => "Urdu",
            ChmLanguage::Vi => "Vietnamese",
            ChmLanguage::Xh => "Xhosa",
            ChmLanguage::Ji => "Yiddish",
            ChmLanguage::Zu => "Zulu",
        }
    }

    /// Returns the language for the given code, matched case-insensitively.
    pub fn from_code(shortcode: &str) -> (r: Option<ChmLanguage>)
        ensures
            r == ChmLanguage::spec_from_code(lower_of(shortcode@)),
    {
        let lower = lowercase(shortcode);
        let s = lower.as_str();
        if crate::utilities::str_eq(s, "af") {
            Some(ChmLanguage::Af)
        } else if crate::utilities::str_eq(s, "sq") {
            Some(ChmLanguage::Sq)
        } else if crate::utilities::str_eq(s, "ar") {
            Some(ChmLanguage::Ar)
        } else if crate::utilities::str_eq(s, "ar-sa") {
            Some(ChmLanguage::ArSa)
        } else if crate::utilities::str_eq(s, "ar-iq") {
            Some(ChmLanguage::ArIq)
        } else if crate::utilities::str_eq(s, "ar-eg") {
            Some(ChmLanguage::ArEg)
        } else if crate::utilities::str_eq(s, "ar-ly") {
            Some(ChmLanguage::ArLy)
        } else if crate::utilities::str_eq(s, "ar-dz") {
            Some(ChmLanguage::ArDz)
        } else if crate::utilities::str_eq(s, "ar-ma") {
            Some(ChmLanguage::ArMa)
        } else if crate::utilities::str_eq(s, "ar-tn") {
            Some(ChmLanguage::ArTn)
        } else if crate::utilities::str_eq(s, "ar-om") {
            Some(ChmLanguage::ArOm)
        } else if crate::utilities::str_eq(s, "ar-ye") {
            Some(ChmLanguage::ArYe)
        } else if crate::utilities::str_eq(s, "ar-sy") {
            Some(ChmLanguage::ArSy)
        } else if crate::utilities::str_eq(s, "ar-jo") {
            Some(ChmLanguage::ArJo)
        } else if crate::utilities::str_eq(s, "ar-lb") {
            Some(ChmLanguage::ArLb)
        } else if crate::utilities::str_eq(s, "ar-kw") {
            Some(ChmLanguage::ArKw)
        } else if crate::utilities::str_eq(s, "ar-ae") {
            Some(ChmLanguage::ArAe)
        } else if crate::utilities::str_eq(s, "ar-bh") {
            Some(ChmLanguage::ArBh)
        } else if crate::utilities::str_eq(s, "ar-qa") {
            Some(ChmLanguage::ArQa)
        } else if crate::utilities::str_eq(s, "eu") {
            Some(ChmLanguage::Eu)
        } else if crate::utilities::str_eq(s, "bg") {
            Some(ChmLanguage::Bg)
        } else if crate::utilities::str_eq(s, "be") {
            Some(ChmLanguage::Be)
        } else if crate::utilities::str_eq(s, "ca") {
            Some(ChmLanguage::Ca)
        } else if crate::utilities::str_eq(s, "zh") {
            Some(ChmLanguage::Zh)
        } else if crate::utilities::str_eq(s, "zh-tw") {
            Some(ChmLanguage::ZhTw)
        } else if crate::utilities::str_eq(s, "zh-cn") {
            Some(ChmLanguage::ZhCn)
        } else if crate::utilities::str_eq(s, "zh-hk") {
            Some(ChmLanguage::ZhHk)
        } else if crate::utilities::str_eq(s, "zh-sg") {
            Some(ChmLanguage::ZhSg)
        } else if crate::utilities::str_eq(s, "hr") {
            Some(ChmLanguage::Hr)
        } else if crate::utilities::str_eq(s, "cs") {
            Some(ChmLanguage::Cs)
        } else if crate::utilities::str_eq(s, "da") {
            Some(ChmLanguage::Da)
        } else if crate::utilities::str_eq(s, "nl") {
            Some(ChmLanguage::Nl)
        } else if crate::utilities::str_eq(s, "nl-be") {
            Some(ChmLanguage::NlBe)
        } else if crate::utilities::str_eq(s, "en") {
            Some(ChmLanguage::En)
        } else if crate::utilities::str_eq(s, "en-us") {
            Some(ChmLanguage::EnUs)
        } else if crate::utilities::str_eq(s, "en-gb") {
            Some(ChmLanguage::EnGb)
        } else if crate::utilities::str_eq(s, "en-au") {
            Some(ChmLanguage::EnAu)
        } else if crate::utilities::str_eq(s, "en-ca") {
            Some(ChmLanguage::EnCa)
        } else if crate::utilities::str_eq(s, "en-nz") {
            Some(ChmLanguage::EnNz)
        } else if crate::utilities::str_eq(s, "en-ie") {
            Some(ChmLanguage::EnIe)
        } else if crate::utilities::str_eq(s, "en-za") {
            Some(ChmLanguage::EnZa)
        } else if crate::utilities::str_eq(s, "en-jm") {
            Some(ChmLanguage::EnJm)
        } else if crate::utilities::str_eq(s, "en-bz") {
            Some(ChmLanguage::EnBz)
        } else if crate::utilities::str_eq(s, "en-tt") {
            Some(ChmLanguage::EnTt)
        } else if crate::utilities::str_eq(s, "et") {
            Some(ChmLanguage::Et)
        } else if crate::utilities::str_eq(s, "fo") {
            Some(ChmLanguage::Fo)
        } else if crate::utilities::str_eq(s, "fa") {
            Some(ChmLanguage::Fa)
        } else if crate::utilities::str_eq(s, "fi") {
            Some(ChmLanguage::Fi)
        } else if crate::utilities::str_eq(s, "fr") {
            Some(ChmLanguage::Fr)
        } else if crate::utilities::str_eq(s, "fr-be") {
            Some(ChmLanguage::FrBe)
        } else if crate::utilities::str_eq(s, "fr-ca") {
            Some(ChmLanguage::FrCa)
        } else if crate::utilities::str_eq(s, "fr-ch") {
            Some(ChmLanguage::FrCh)
        } else if crate::utilities::str_eq(s, "fr-lu") {
            Some(ChmLanguage::FrLu)
        } else if crate::utilities::str_eq(s, "gd") {
            Some(ChmLanguage::Gd)
        } else if crate::utilities::str_eq(s, "de") {
            Some(ChmLanguage::De)
        } else if crate::utilities::str_eq(s, "de-ch") {
            Some(ChmLanguage::DeCh)
        } else if crate::utilities::str_eq(s, "de-at") {
            Some(ChmLanguage::DeAt)
        } else if crate::utilities::str_eq(s, "de-lu") {
            Some(ChmLanguage::DeLu)
        } else if crate::utilities::str_eq(s, "de-li") {
            Some(ChmLanguage::DeLi)
        } else if crate::utilities::str_eq(s, "el") {
            Some(ChmLanguage::El)
        } else if crate::utilities::str_eq(s, "he") {
            Some(ChmLanguage::He)
        } else if crate::utilities::str_eq(s, "hi") {
            Some(ChmLanguage::Hi)
        } else if crate::utilities::str_eq(s, "hu") {
            Some(ChmLanguage::Hu)
        } else if crate::utilities::str_eq(s, "is") {
            Some(ChmLanguage::Is)
        } else if crate::utilities::str_eq(s, "id") {
            Some(ChmLanguage::In)
        } else if crate::utilities::str_eq(s, "it") {
            Some(ChmLanguage::It)
        } else if crate::utilities::str_eq(s, "it-ch") {
            Some(ChmLanguage::ItCh)
        } else if crate::utilities::str_eq(s, "ja") {
            Some(ChmLanguage::Ja)
        } else if crate::utilities::str_eq(s, "ko") {
            Some(ChmLanguage::Ko)
        } else if crate::utilities::str_eq(s, "lv") {
            Some(ChmLanguage::Lv)
        } else if crate::utilities::str_eq(s, "lt") {
            Some(ChmLanguage::Lt)
        } else if crate::utilities::str_eq(s, "mk") {
            Some(ChmLanguage::Mk)
        } else if crate::utilities::str_eq(s, "ms") {
            Some(ChmLanguage::Ms)
        } else if crate::utilities::str_eq(s, "mt") {
            Some(ChmLanguage::Mt)
        } else if crate::utilities::str_eq(s, "nb") {
            Some(ChmLanguage::No)
        } else if crate::utilities::str_eq(s, "pl") {
            Some(ChmLanguage::Pl)
        } else if crate::utilities::str_eq(s, "pt-br") {
            Some(ChmLanguage::PtBr)
        } else if crate::utilities::str_eq(s, "pt") {
            Some(ChmLanguage::Pt)
        } else if crate::utilities::str_eq(s, "rm") {
            Some(ChmLanguage::Rm)
        } else if crate::utilities::str_eq(s, "ro") {
            Some(ChmLanguage::Ro)
        } else if crate::utilities::str_eq(s, "ro-mo") {
            Some(ChmLanguage::RoMo)
        } else if crate::utilities::str_eq(s, "ru") {
            Some(ChmLanguage::Ru)
        } else if crate::utilities::str_eq(s, "ru-mo") {
            Some(ChmLanguage::RuMo)
        } else if crate::utilities::str_eq(s, "sr") {
            Some(ChmLanguage::Sr)
        } else if crate::utilities::str_eq(s, "sk") {
            Some(ChmLanguage::Sk)
        } else if crate::utilities::str_eq(s, "sl") {
            Some(ChmLanguage::Sl)
        } else if crate::utilities::str_eq(s, "sb") {
            Some(ChmLanguage::Sb)
        } else if crate::utilities::str_eq(s, "es") {
            Some(ChmLanguage::Es)
        } else if crate::utilities::str_eq(s, "es-mx") {
            Some(ChmLanguage::EsMx)
        } else if crate::utilities::str_eq(s, "es-gt") {
            Some(ChmLanguage::EsGt)
        } else if crate::utilities::str_eq(s, "es-cr") {
            Some(ChmLanguage::EsCr)
        } else if crate::utilities::str_eq(s, "es-pa") {
            Some(ChmLanguage::EsPa)
        } else if crate::utilities::str_eq(s, "es-do") {
            Some(ChmLanguage::EsDo)
        } else if crate::utilities::str_eq(s, "es-ve") {
            Some(ChmLanguage::EsVe)
        } else if crate::utilities::str_eq(s, "es-co") {
            Some(ChmLanguage::EsCo)
        } else if crate::utilities::str_eq(s, "es-pe") {
            Some(ChmLanguage::EsPe)
        } else if crate::utilities::str_eq(s, "es-ar") {
            Some(ChmLanguage::EsAr)
        } else if crate::utilities::str_eq(s, "es-ec") {
            Some(ChmLanguage::EsEc)
        } else if crate::utilities::str_eq(s, "es-cl") {
            Some(ChmLanguage::EsCl)
        } else if crate::utilities::str_eq(s, "es-uy") {
            Some(ChmLanguage::EsUy)
        } else if crate::utilities::str_eq(s, "es-py") {
            Some(ChmLanguage::EsPy)
        } else if crate::utilities::str_eq(s, "es-bo") {
            Some(ChmLanguage::EsBo)
        } else if crate::utilities::str_eq(s, "es-sv") {
            Some(ChmLanguage::EsSv)
        } else if crate::utilities::str_eq(s, "es-hn") {
            Some(ChmLanguage::EsHn)
        } else if crate::utilities::str_eq(s, "es-ni") {
            Some(ChmLanguage::EsNi)
        } else if crate::utilities::str_eq(s, "es-pr") {
            Some(ChmLanguage::EsPr)
        } else if crate::utilities::str_eq(s, "sx") {
            Some(ChmLanguage::Sx)
        } else if crate::utilities::str_eq(s, "sv") {
            Some(ChmLanguage::Sv)
        } else if crate::utilities::str_eq(s, "sv-fi") {
            Some(ChmLanguage::SvFi)
        } else if crate::utilities::str_eq(s, "th") {
            Some(ChmLanguage::Th)
        } else if crate::utilities::str_eq(s, "ts") {
            Some(ChmLanguage::Ts)
        } else if crate::utilities::str_eq(s, "tn") {
            Some(ChmLanguage::Tn)
        } else if crate::utilities::str_eq(s, "tr") {
            Some(ChmLanguage::Tr)
        } else if crate::utilities::str_eq(s, "uk") {
            Some(ChmLanguage::Uk)
        } else if crate::utilities::str_eq(s, "ur") {
            Some(ChmLanguage::Ur)
        } else if crate::utilities::str_eq(s, "vi") {
            Some(ChmLanguage::Vi)
        } else if crate::utilities::str_eq(s, "xh") {
            Some(ChmLanguage::Xh)
        } else if crate::utilities::str_eq(s, "ji") {
            Some(ChmLanguage::Ji)
        } else if crate::utilities::str_eq(s, "zu") {
            Some(ChmLanguage::Zu)
        } else {
            None
        }
    }
}

impl Default for ChmLanguage {
    /// The default language is United States English.
    fn default() -> (r: Self)
        ensures
            r == ChmLanguage::EnUs,
    {
        ChmLanguage::EnUs
    }
}


/// The lower-case hexadecimal digit for a value below sixteen.
pub open spec fn hex_digit(d: int) -> char {
    if d == 0 {
        '0'
    } else if d == 1 {
        '1'
    } else if d == 2 {
        '2'
    } else if d == 3 {
        '3'
    } else if d == 4 {
        '4'
    } else if d == 5 {
        '5'
    } else if d == 6 {
        '6'
    } else if d == 7 {
        '7'
    } else if d == 8 {
        '8'
    } else if d == 9 {
        '9'
    } else if d == 10 {
        'a'
    } else if d == 11 {
        'b'
    } else if d == 12 {
        'c'
    } else if d == 13 {
        'd'
    } else if d == 14 {
        'e'
    } else {
        'f'
    }
}

/// A number written in lower-case hexadecimal, without leading zeroes.
pub open spec fn hex_of(n: int) -> Seq<char>
    decreases n,
{
    if n < 16 {
        seq![hex_digit(n)]
    } else {
        hex_of(n / 16) + seq![hex_digit(n % 16)]
    }
}

fn hex_digit_str(d: u32) -> (r: &'static str)
    requires
        d < 16,
    ensures
        r@ == seq![hex_digit(d as int)],
{
    proof {
        reveal_strlit("0");
        reveal_strlit("1");
        reveal_strlit("2");
        reveal_strlit("3");
        reveal_strlit("4");
        reveal_strlit("5");
        reveal_strlit("6");
        reveal_strlit("7");
        reveal_strlit("8");
        reveal_strlit("9");
        reveal_strlit("a");
        reveal_strlit("b");
        reveal_strlit("c");
        reveal_strlit("d");
        reveal_strlit("e");
        reveal_strlit("f");
    }
    if d == 0 {
        "0"
    } else if d == 1 {
        "1"
    } else if d == 2 {
        "2"
    } else if d == 3 {
        "3"
    } else if d == 4 {
        "4"
    } else if d == 5 {
        "5"
    } else if d == 6 {
        "6"
    } else if d == 7 {
        "7"
    } else if d == 8 {
        "8"
    } else if d == 9 {
        "9"
    } else if d == 10 {
        "a"
    } else if d == 11 {
        "b"
    } else if d == 12 {
        "c"
    } else if d == 13 {
        "d"
    } else if d == 14 {
        "e"
    } else {
        "f"
    }
}

/// A number formatted in lower-case hexadecimal.
pub fn hex_string(n: u32) -> (r: String)
    ensures
        r@ == hex_of(n as int),
    decreases n,
{
    if n < 16 {
        String::from_str(hex_digit_str(n))
    } else {
        let mut s = hex_string(n / 16);
        s.append(hex_digit_str(n % 16));
        s
    }
}


impl ChmLanguage {
    /// The manifest form of the language: identifier in hexadecimal, one
    /// space, then the display name.
    pub open spec fn spec_line(self) -> Seq<char> {
        hex_of(self.spec_id() as int) + " "@ + self.spec_name()
    }

    /// Format the language as the manifest wants it.
    pub fn to_text(&self) -> (r: String)
        ensures
            r@ == self.spec_line(),
    {
        let mut s = hex_string(self.id());
        s.append(" ");
        s.append(self.name());
        s
    }
}

} // verus!
