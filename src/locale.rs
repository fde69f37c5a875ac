use vstd::prelude::*;

verus! {

/// The text of an optional string.
pub open spec fn opt_str(s: Option<&str>) -> Option<Seq<char>> {
    match s {
        Some(t) => Some(t@),
        None => None,
    }
}

/// The time locale named by the environment: `LC_ALL` if set, else
/// `LC_TIME`, else `LANG`, else `"en"`.
pub open spec fn chosen_locale(
    lc_all: Option<Seq<char>>,
    lc_time: Option<Seq<char>>,
    lang: Option<Seq<char>>,
) -> Seq<char> {
    match lc_all {
        Some(v) => v,
        None => match lc_time {
            Some(v) => v,
            None => match lang {
                Some(v) => v,
                None => seq!['e', 'n'],
            },
        },
    }
}

/// The part of `s` before its first `.` (all of `s` if it has none).
pub open spec fn before_dot(s: Seq<char>) -> Seq<char>
    decreases s.len(),
{
    if s.len() == 0 {
        s
    } else if s[0] == '.' {
        Seq::empty()
    } else {
        seq![s[0]] + before_dot(s.skip(1))
    }
}

/// Where no `.` comes before position `i`, the part before the first dot
/// is the first `i` characters if `s[i]` is a dot or `i` is the end.
proof fn lemma_before_dot_at(s: Seq<char>, i: int)
    requires
        0 <= i <= s.len(),
        forall|j: int| 0 <= j < i ==> s[j] != '.',
        i == s.len() || s[i] == '.',
    ensures
        before_dot(s) == s.take(i),
    decreases s.len(),
{
    if s.len() == 0 {
        assert(s.take(i) =~= s);
    } else if i == 0 {
        assert(s.take(0) =~= Seq::<char>::empty());
    } else {
        let t = s.skip(1);
        assert forall|j: int| 0 <= j < i - 1 implies t[j] != '.' by {
            assert(t[j] == s[j + 1]);
        }
        if i < s.len() {
            assert(t[i - 1] == s[i]);
        }
        lemma_before_dot_at(t, i - 1);
        assert(seq![s[0]] + t.take(i - 1) =~= s.take(i));
    }
}

/// The time locale of the environment, given the values of `LC_ALL`,
/// `LC_TIME` and `LANG` (`None` where a variable is unset), without its
/// charset suffix.
pub fn get_system_time_locale(lc_all: Option<&str>, lc_time: Option<&str>, lang: Option<&str>) -> (r: String)
    ensures
        r@ == before_dot(chosen_locale(opt_str(lc_all), opt_str(lc_time), opt_str(lang))),
{
    proof {
        reveal_strlit("en");
    }
    let s: &str = match lc_all {
        Some(v) => v,
        None => match lc_time {
            Some(v) => v,
            None => match lang {
                Some(v) => v,
                None => "en",
            },
        },
    };
    assert(s@ == chosen_locale(opt_str(lc_all), opt_str(lc_time), opt_str(lang))) by {
        assert("en"@ =~= seq!['e', 'n']);
    }
    let n = s.unicode_len();
    let mut i: usize = 0;
    while i < n && s.get_char(i) != '.'
        invariant
            n == s@.len(),
            i <= n,
            forall|j: int| 0 <= j < i ==> s@[j] != '.',
        decreases n - i,
    {
        i = i + 1;
    }
    proof {
        lemma_before_dot_at(s@, i as int);
    }
    s.substring_char(0, i).to_string()
}

} // verus!
