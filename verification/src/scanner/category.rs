//! The categories into which the scanner's rules are sorted.
use vstd::prelude::*;
use crate::text::{ascii_lower_seq, chars_of, eq_lit, extend_chars, is_ascii_seq, lowercase_chars, spec_to_lowercase, string_of};

verus! {

/// A category of threats; each has its own rule set.
#[derive(PartialEq, Eq, Structural, Clone, Copy, Debug, Hash)]
pub enum ThreatCategory {
    Ransomware,
    Trojan,
    Backdoor,
    Cryptominer,
    Webshell,
    Rootkit,
    Spyware,
    Apt,
    Other,
}

/// Every category, in declaration order.
pub open spec fn all_categories() -> Seq<ThreatCategory> {
    seq![
        ThreatCategory::Ransomware,
        ThreatCategory::Trojan,
        ThreatCategory::Backdoor,
        ThreatCategory::Cryptominer,
        ThreatCategory::Webshell,
        ThreatCategory::Rootkit,
        ThreatCategory::Spyware,
        ThreatCategory::Apt,
        ThreatCategory::Other,
    ]
}

/// The name of a category: that of its rule files.
pub open spec fn category_name(c: ThreatCategory) -> Seq<char> {
    match c {
        ThreatCategory::Ransomware => "ransomware"@,
        ThreatCategory::Trojan => "trojans"@,
        ThreatCategory::Backdoor => "backdoors"@,
        ThreatCategory::Cryptominer => "cryptominers"@,
        ThreatCategory::Webshell => "webshells"@,
        ThreatCategory::Rootkit => "rootkits"@,
        ThreatCategory::Spyware => "spyware"@,
        ThreatCategory::Apt => "apt"@,
        ThreatCategory::Other => "other"@,
    }
}

/// The category named by a lowercase name; `other` names none.
pub open spec fn category_of_lower(l: Seq<char>) -> Option<ThreatCategory> {
    if l == "ransomware"@ {
        Some(ThreatCategory::Ransomware)
    } else if l == "trojans"@ {
        Some(ThreatCategory::Trojan)
    } else if l == "backdoors"@ {
        Some(ThreatCategory::Backdoor)
    } else if l == "cryptominers"@ {
        Some(ThreatCategory::Cryptominer)
    } else if l == "webshells"@ {
        Some(ThreatCategory::Webshell)
    } else if l == "rootkits"@ {
        Some(ThreatCategory::Rootkit)
    } else if l == "spyware"@ {
        Some(ThreatCategory::Spyware)
    } else if l == "apt"@ {
        Some(ThreatCategory::Apt)
    } else {
        None
    }
}

/// The category a name denotes, case aside.
pub open spec fn spec_try_from_str(s: Seq<char>) -> Option<ThreatCategory> {
    category_of_lower(spec_to_lowercase(s))
}

impl ThreatCategory {
    /// Every category, in declaration order.
    pub fn all() -> (r: Vec<ThreatCategory>)
        ensures
            r@ == all_categories(),
    {
        let r = vec![
            ThreatCategory::Ransomware,
            ThreatCategory::Trojan,
            ThreatCategory::Backdoor,
            ThreatCategory::Cryptominer,
            ThreatCategory::Webshell,
            ThreatCategory::Rootkit,
            ThreatCategory::Spyware,
            ThreatCategory::Apt,
            ThreatCategory::Other,
        ];
        assert(r@ =~= all_categories());
        r
    }

    /// The category's name.
    pub fn as_str(&self) -> (r: &'static str)
        ensures
            r@ == category_name(*self),
    {
        match self {
            ThreatCategory::Ransomware => "ransomware",
            ThreatCategory::Trojan => "trojans",
            ThreatCategory::Backdoor => "backdoors",
            ThreatCategory::Cryptominer => "cryptominers",
            ThreatCategory::Webshell => "webshells",
            ThreatCategory::Rootkit => "rootkits",
            ThreatCategory::Spyware => "spyware",
            ThreatCategory::Apt => "apt",
            ThreatCategory::Other => "other",
        }
    }

    /// The category a name denotes, in any case; none for `other` or an unknown name.
    pub fn try_from_str(s: &str) -> (r: Option<ThreatCategory>)
        ensures
            r == spec_try_from_str(s@),
    {
        let l = lowercase_chars(chars_of(s).as_slice());
        let l = l.as_slice();
        if eq_lit(l, "ransomware") {
            Some(ThreatCategory::Ransomware)
        } else if eq_lit(l, "trojans") {
            Some(ThreatCategory::Trojan)
        } else if eq_lit(l, "backdoors") {
            Some(ThreatCategory::Backdoor)
        } else if eq_lit(l, "cryptominers") {
            Some(ThreatCategory::Cryptominer)
        } else if eq_lit(l, "webshells") {
            Some(ThreatCategory::Webshell)
        } else if eq_lit(l, "rootkits") {
            Some(ThreatCategory::Rootkit)
        } else if eq_lit(l, "spyware") {
            Some(ThreatCategory::Spyware)
        } else if eq_lit(l, "apt") {
            Some(ThreatCategory::Apt)
        } else {
            None
        }
    }

    /// Parses a category name, in any case; the error names the lowercased text.
    pub fn parse(s: &str) -> (r: Result<ThreatCategory, String>)
        ensures
            match spec_try_from_str(s@) {
                Some(c) => r == Ok::<ThreatCategory, String>(c),
                None => r matches Err(e) && e@ == "Unknown category: '"@ + spec_to_lowercase(s@)
                    + "'"@,
            },
    {
        match ThreatCategory::try_from_str(s) {
            Some(c) => Ok(c),
            None => {
                let mut v = chars_of("Unknown category: '");
                extend_chars(&mut v, lowercase_chars(chars_of(s).as_slice()).as_slice());
                extend_chars(&mut v, chars_of("'").as_slice());
                Err(string_of(v.as_slice()))
            },
        }
    }
}

/// Text without capitals among ASCII is its own lowercase.
proof fn lemma_lowercase_fixed(s: Seq<char>)
    requires
        forall|i: int| 0 <= i < s.len() ==> 'a' <= #[trigger] s[i] <= 'z',
    ensures
        spec_to_lowercase(s) == s,
{
    assert(is_ascii_seq(s));
    assert(ascii_lower_seq(s) =~= s);
}

/// Reading back the name of a category gives the category, except for `other`, which
/// names none.
pub proof fn law_category_name_roundtrip(c: ThreatCategory)
    ensures
        c != ThreatCategory::Other ==> spec_try_from_str(category_name(c)) == Some(c),
        c == ThreatCategory::Other ==> spec_try_from_str(category_name(c)) is None,
{
    reveal_strlit("ransomware");
    reveal_strlit("trojans");
    reveal_strlit("backdoors");
    reveal_strlit("cryptominers");
    reveal_strlit("webshells");
    reveal_strlit("rootkits");
    reveal_strlit("spyware");
    reveal_strlit("apt");
    reveal_strlit("other");
    lemma_lowercase_fixed(category_name(c));
    assert("webshells"@[0] != "backdoors"@[0]);
    assert("spyware"@[0] != "trojans"@[0]);
    assert("webshells"@.len() != "ransomware"@.len());
}

/// A category's name is read in any case: any ASCII spelling whose lowercase is the name
/// of a category (its uppercase `RANSOMWARE`, or `Trojans`) denotes that category, except
/// for `other`, which denotes none.
pub proof fn law_category_names_in_any_case(c: ThreatCategory, s: Seq<char>)
    requires
        is_ascii_seq(s),
        ascii_lower_seq(s) == category_name(c),
    ensures
        c != ThreatCategory::Other ==> spec_try_from_str(s) == Some(c),
        c == ThreatCategory::Other ==> spec_try_from_str(s) is None,
{
    law_category_name_roundtrip(c);
    lemma_names_lowercase(c);
    lemma_lowercase_fixed(category_name(c));
}

proof fn lemma_names_lowercase(c: ThreatCategory)
    ensures
        forall|i: int| 0 <= i < category_name(c).len() ==> 'a' <= #[trigger] category_name(c)[i] <= 'z',
{
    reveal_strlit("ransomware");
    reveal_strlit("trojans");
    reveal_strlit("backdoors");
    reveal_strlit("cryptominers");
    reveal_strlit("webshells");
    reveal_strlit("rootkits");
    reveal_strlit("spyware");
    reveal_strlit("apt");
    reveal_strlit("other");
}

/// No two categories share a name.
pub proof fn law_category_names_distinct(c1: ThreatCategory, c2: ThreatCategory)
    ensures
        category_name(c1) == category_name(c2) ==> c1 == c2,
{
    law_category_name_roundtrip(c1);
    law_category_name_roundtrip(c2);
}

impl std::str::FromStr for ThreatCategory {
    type Err = String;

    /// Parses a category name as `parse` does.
    fn from_str(s: &str) -> (r: Result<Self, Self::Err>)
        ensures
            match spec_try_from_str(s@) {
                Some(c) => r == Ok::<ThreatCategory, String>(c),
                None => r matches Err(e) && e@ == "Unknown category: '"@ + spec_to_lowercase(s@)
                    + "'"@,
            },
    {
        ThreatCategory::parse(s)
    }
}

} // verus!
