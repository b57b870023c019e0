//! Reading the names of distributions, element types and routing rules.
//!
//! A name is compared after `str::to_lowercase`, so the comparison ignores
//! letter case.
use vstd::prelude::*;
use vstd::string::*;
use vstd::utf8::is_ascii_chars;

use crate::consts::{DistributionType, ElementType, NextElementType};

verus! {

/// What `str::to_lowercase` gives back for a string with the given characters.
pub uninterp spec fn lowercase(s: Seq<char>) -> Seq<char>;

/// `c` with an ASCII capital letter turned into its small letter.
pub open spec fn ascii_lower_char(c: char) -> char {
    if 'A' <= c && c <= 'Z' {
        ((c as u32) + 32) as char
    } else {
        c
    }
}

/// `c` with an ASCII small letter turned into its capital letter.
pub open spec fn ascii_upper_char(c: char) -> char {
    if 'a' <= c && c <= 'z' {
        ((c as u32) - 32) as char
    } else {
        c
    }
}

/// The characters of `s` with ASCII capital letters made small.
pub open spec fn ascii_lower(s: Seq<char>) -> Seq<char> {
    s.map_values(|c: char| ascii_lower_char(c))
}

/// The characters of `s` with ASCII small letters made capital.
pub open spec fn ascii_upper(s: Seq<char>) -> Seq<char> {
    s.map_values(|c: char| ascii_upper_char(c))
}

/// Calls `str::to_lowercase`. Its result is named `lowercase` of the
/// characters of `s`. Of a string of ASCII characters it claims one thing
/// more, which the documentation of `str::to_lowercase` and
/// `str::to_ascii_lowercase` gives: the capital letters `A` to `Z` become
/// `a` to `z` and every other ASCII character stays as it is. What it gives
/// for other characters (Unicode lowercase mapping) is left unsaid.
#[verifier::external_body]
pub(crate) fn to_lowercase(s: &str) -> (r: String)
    ensures
        r@ == lowercase(s@),
        is_ascii_chars(s@) ==> r@ == ascii_lower(s@),
{
    s.to_lowercase()
}

/// Whether two strings hold the same characters.
pub fn str_eq(a: &str, b: &str) -> (r: bool)
    ensures
        r == (a@ == b@),
{
    let n = a.unicode_len();
    let m = b.unicode_len();
    if n != m {
        return false;
    }
    let mut i: usize = 0;
    while i < n
        invariant
            n == a@.len(),
            m == b@.len(),
            n == m,
            i <= n,
            forall|j: int| 0 <= j < i ==> a@[j] == b@[j],
        decreases n - i,
    {
        if a.get_char(i) != b.get_char(i) {
            return false;
        }
        i = i + 1;
    }
    assert(a@ =~= b@);
    true
}

/// The distribution whose lowercase name is `name`.
pub open spec fn distribution_named(name: Seq<char>) -> Option<DistributionType> {
    if name == "exponential"@ {
        Some(DistributionType::Exponential)
    } else if name == "normal"@ {
        Some(DistributionType::Normal)
    } else if name == "uniform"@ {
        Some(DistributionType::Uniform)
    } else if name == "erlang"@ {
        Some(DistributionType::Erlang)
    } else if name == "constant"@ {
        Some(DistributionType::Constant)
    } else {
        None
    }
}

/// The element type whose lowercase name is `name`.
pub open spec fn element_type_named(name: Seq<char>) -> Option<ElementType> {
    if name == "create"@ {
        Some(ElementType::Create)
    } else if name == "process"@ {
        Some(ElementType::Process)
    } else if name == "dispose"@ {
        Some(ElementType::Dispose)
    } else {
        None
    }
}

/// The routing rule whose lowercase name is `name`; a round robin starts at position 0.
pub open spec fn next_element_type_named(name: Seq<char>) -> Option<NextElementType> {
    if name == "balanced"@ {
        Some(NextElementType::Balanced)
    } else if name == "round robin"@ {
        Some(NextElementType::RoundRobin(0))
    } else if name == "random"@ {
        Some(NextElementType::Random)
    } else {
        None
    }
}

/// Looks a name that is already in lowercase up among the distributions.
pub fn distribution_from_lowercase(name: &str) -> (r: Option<DistributionType>)
    ensures
        r == distribution_named(name@),
{
    if str_eq(name, "exponential") {
        Some(DistributionType::Exponential)
    } else if str_eq(name, "normal") {
        Some(DistributionType::Normal)
    } else if str_eq(name, "uniform") {
        Some(DistributionType::Uniform)
    } else if str_eq(name, "erlang") {
        Some(DistributionType::Erlang)
    } else if str_eq(name, "constant") {
        Some(DistributionType::Constant)
    } else {
        None
    }
}

/// Looks a name that is already in lowercase up among the element types.
pub fn element_type_from_lowercase(name: &str) -> (r: Option<ElementType>)
    ensures
        r == element_type_named(name@),
{
    if str_eq(name, "create") {
        Some(ElementType::Create)
    } else if str_eq(name, "process") {
        Some(ElementType::Process)
    } else if str_eq(name, "dispose") {
        Some(ElementType::Dispose)
    } else {
        None
    }
}

/// Looks a name that is already in lowercase up among the routing rules.
pub fn next_element_type_from_lowercase(name: &str) -> (r: Option<NextElementType>)
    ensures
        r == next_element_type_named(name@),
{
    if str_eq(name, "balanced") {
        Some(NextElementType::Balanced)
    } else if str_eq(name, "round robin") {
        Some(NextElementType::RoundRobin(0))
    } else if str_eq(name, "random") {
        Some(NextElementType::Random)
    } else {
        None
    }
}

/// Reads a distribution's name, in any letter case.
pub fn parse_distribution(dist_name: &str) -> (r: Option<DistributionType>)
    ensures
        r == distribution_named(lowercase(dist_name@)),
        is_ascii_chars(dist_name@) ==> r == distribution_named(ascii_lower(dist_name@)),
{
    let lower = to_lowercase(dist_name);
    distribution_from_lowercase(lower.as_str())
}

/// Reads an element type's name, in any letter case.
pub fn parse_element_type(et_name: &str) -> (r: Option<ElementType>)
    ensures
        r == element_type_named(lowercase(et_name@)),
        is_ascii_chars(et_name@) ==> r == element_type_named(ascii_lower(et_name@)),
{
    let lower = to_lowercase(et_name);
    element_type_from_lowercase(lower.as_str())
}

/// Reads a routing rule's name, in any letter case.
pub fn parse_next_element_type(net_name: &str) -> (r: Option<NextElementType>)
    ensures
        r == next_element_type_named(lowercase(net_name@)),
        is_ascii_chars(net_name@) ==> r == next_element_type_named(ascii_lower(net_name@)),
{
    let lower = to_lowercase(net_name);
    next_element_type_from_lowercase(lower.as_str())
}

/// The name that `Debug` writes for a distribution.
pub open spec fn distribution_debug_name(d: DistributionType) -> Seq<char> {
    match d {
        DistributionType::Exponential => "Exponential"@,
        DistributionType::Normal => "Normal"@,
        DistributionType::Uniform => "Uniform"@,
        DistributionType::Erlang => "Erlang"@,
        DistributionType::Constant => "Constant"@,
    }
}

/// The name that `Debug` writes for an element type.
pub open spec fn element_type_debug_name(t: ElementType) -> Seq<char> {
    match t {
        ElementType::Create => "Create"@,
        ElementType::Process => "Process"@,
        ElementType::Dispose => "Dispose"@,
    }
}

/// The name under which a routing rule is written, with an in-turn counter at 0.
pub open spec fn next_element_type_display_name(t: NextElementType) -> Seq<char> {
    match t {
        NextElementType::Balanced => "Balanced"@,
        NextElementType::RoundRobin(_) => "Round Robin"@,
        NextElementType::Random => "Random"@,
    }
}

/// Letter case does not matter in an ASCII name: making its small letters
/// capital leaves it ASCII and changes nothing once capitals are made small.
pub proof fn law_ascii_case_is_ignored(s: Seq<char>)
    requires
        is_ascii_chars(s),
    ensures
        is_ascii_chars(ascii_upper(s)),
        ascii_lower(ascii_upper(s)) == ascii_lower(s),
{
    assert(ascii_lower(ascii_upper(s)) =~= ascii_lower(s));
}

/// Every distribution is read back from the name that `Debug` writes for it.
pub proof fn law_distribution_names_read_back(d: DistributionType)
    ensures
        is_ascii_chars(distribution_debug_name(d)),
        distribution_named(ascii_lower(distribution_debug_name(d))) == Some(d),
{
    reveal_strlit("Exponential");
    reveal_strlit("exponential");
    reveal_strlit("Normal");
    reveal_strlit("normal");
    reveal_strlit("Uniform");
    reveal_strlit("uniform");
    reveal_strlit("Erlang");
    reveal_strlit("erlang");
    reveal_strlit("Constant");
    reveal_strlit("constant");
    let n = distribution_debug_name(d);
    match d {
        DistributionType::Exponential => assert(ascii_lower(n) =~= "exponential"@),
        DistributionType::Normal => {
            assert(ascii_lower(n) =~= "normal"@);
            assert("normal"@ != "exponential"@);
        },
        DistributionType::Uniform => {
            assert(ascii_lower(n) =~= "uniform"@);
            assert("uniform"@ != "exponential"@);
            assert("uniform"@ != "normal"@);
        },
        DistributionType::Erlang => {
            assert(ascii_lower(n) =~= "erlang"@);
            assert("erlang"@ != "exponential"@);
            assert("erlang"@[0] != "normal"@[0]);
            assert("erlang"@ != "uniform"@);
        },
        DistributionType::Constant => {
            assert(ascii_lower(n) =~= "constant"@);
            assert("constant"@ != "exponential"@);
            assert("constant"@ != "normal"@);
            assert("constant"@ != "uniform"@);
            assert("constant"@ != "erlang"@);
        },
    }
}

/// Every routing rule is read back from its written name; an in-turn rule
/// comes back with its counter at 0.
pub proof fn law_next_element_type_names_read_back(t: NextElementType)
    ensures
        is_ascii_chars(next_element_type_display_name(t)),
        next_element_type_named(ascii_lower(next_element_type_display_name(t))) == Some(
            match t {
                NextElementType::RoundRobin(_) => NextElementType::RoundRobin(0),
                _ => t,
            },
        ),
{
    reveal_strlit("Balanced");
    reveal_strlit("balanced");
    reveal_strlit("Round Robin");
    reveal_strlit("round robin");
    reveal_strlit("Random");
    reveal_strlit("random");
    let n = next_element_type_display_name(t);
    match t {
        NextElementType::Balanced => assert(ascii_lower(n) =~= "balanced"@),
        NextElementType::RoundRobin(_) => {
            assert(ascii_lower(n) =~= "round robin"@);
            assert("round robin"@ != "balanced"@);
        },
        NextElementType::Random => {
            assert(ascii_lower(n) =~= "random"@);
            assert("random"@ != "balanced"@);
            assert("random"@ != "round robin"@);
        },
    }
}

/// Every element type is read back from the name that `Debug` writes for it.
pub proof fn law_element_type_names_read_back(t: ElementType)
    ensures
        is_ascii_chars(element_type_debug_name(t)),
        element_type_named(ascii_lower(element_type_debug_name(t))) == Some(t),
{
    reveal_strlit("Create");
    reveal_strlit("create");
    reveal_strlit("Process");
    reveal_strlit("process");
    reveal_strlit("Dispose");
    reveal_strlit("dispose");
    let n = element_type_debug_name(t);
    match t {
        ElementType::Create => assert(ascii_lower(n) =~= "create"@),
        ElementType::Process => {
            assert(ascii_lower(n) =~= "process"@);
            assert("process"@ != "create"@);
        },
        ElementType::Dispose => {
            assert(ascii_lower(n) =~= "dispose"@);
            assert("dispose"@ != "create"@);
            assert("dispose"@[0] != "process"@[0]);
        },
    }
}

} // verus!
