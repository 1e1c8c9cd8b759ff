use vstd::prelude::*;
use vstd::string::StrSliceExecFns;

verus! {

/// The configured interface pattern: an exact interface name, or a name
/// prefix when the configuration string ended with the `*` wildcard marker.
/// Immutable once parsed; the resolution pass and the change monitor share
/// one value, so both agree on what "matches" means.
#[derive(Debug)]
pub struct InterfacePattern {
    pub text: String,
    pub prefix_mode: bool,
}

/// Does `label` begin with `prefix`, character for character?
pub open spec fn seq_starts_with(label: Seq<char>, prefix: Seq<char>) -> bool {
    prefix.len() <= label.len() && label.subrange(0, prefix.len() as int) == prefix
}

/// The single matching rule: in prefix mode the label must begin with the
/// pattern text, otherwise it must equal it exactly (case-sensitive).
pub open spec fn label_matches(pattern: InterfacePattern, label: Seq<char>) -> bool {
    if pattern.prefix_mode {
        seq_starts_with(label, pattern.text@)
    } else {
        label == pattern.text@
    }
}

impl InterfacePattern {
    /// Parses the configured interface-name setting, done once before either
    /// phase begins: a trailing `*` selects prefix mode and is stripped.
    pub fn parse(config: &str) -> (r: InterfacePattern)
        ensures
            r.prefix_mode == (config@.len() > 0 && config@.last() == '*'),
            r.prefix_mode ==> r.text@ == config@.drop_last(),
            !r.prefix_mode ==> r.text@ == config@,
    {
        let n = config.unicode_len();
        if n > 0 && config.get_char(n - 1) == '*' {
            let text = config.substring_char(0, n - 1).to_owned();
            proof {
                assert(config@.subrange(0, n - 1) =~= config@.drop_last());
            }
            InterfacePattern { text, prefix_mode: true }
        } else {
            InterfacePattern { text: config.to_owned(), prefix_mode: false }
        }
    }
}

/// Character-by-character prefix test on string slices.
pub fn str_starts_with(label: &str, prefix: &str) -> (r: bool)
    ensures
        r == seq_starts_with(label@, prefix@),
{
    let ll = label.unicode_len();
    let pl = prefix.unicode_len();
    if pl > ll {
        return false;
    }
    let mut i: usize = 0;
    while i < pl
        invariant
            ll == label@.len(),
            pl == prefix@.len(),
            pl <= ll,
            i <= pl,
            forall|j: int| 0 <= j < i ==> label@[j] == prefix@[j],
        decreases pl - i,
    {
        if label.get_char(i) != prefix.get_char(i) {
            proof {
                assert(label@.subrange(0, pl as int)[i as int] == label@[i as int]);
            }
            return false;
        }
        i += 1;
    }
    proof {
        assert(label@.subrange(0, pl as int) =~= prefix@);
    }
    true
}

} // verus!
