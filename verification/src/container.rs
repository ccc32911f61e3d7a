//! The container-resolver parsing rules: extracting the runtime container
//! id, the namespace PID from a container spec path, the cgroup path from
//! a procfs line, and a namespace inode from a namespace listing.

use vstd::prelude::*;
use crate::ext::push_char;

verus! {

/// The runtime prefix in front of every container id the watcher sees.
pub open spec fn spec_runtime_prefix() -> Seq<char> {
    "containerd://"@
}

/// Whether a character may appear in a runtime container id.
pub open spec fn spec_alnum(c: char) -> bool {
    ('0' <= c && c <= '9') || ('a' <= c && c <= 'z') || ('A' <= c && c <= 'Z')
}

fn is_alnum(c: char) -> (r: bool)
    ensures
        r == spec_alnum(c),
{
    ('0' <= c && c <= '9') || ('a' <= c && c <= 'z') || ('A' <= c && c <= 'Z')
}

/// The length of the run of id characters at the front of `s`.
pub open spec fn spec_alnum_run(s: Seq<char>) -> int
    decreases s.len(),
{
    if s.len() == 0 || !spec_alnum(s[0]) {
        0
    } else {
        1 + spec_alnum_run(s.drop_first())
    }
}

proof fn lemma_alnum_run_bound(s: Seq<char>)
    ensures
        0 <= spec_alnum_run(s) <= s.len(),
        forall|j: int| 0 <= j < spec_alnum_run(s) ==> spec_alnum(s[j]),
        spec_alnum_run(s) < s.len() ==> !spec_alnum(s[spec_alnum_run(s)]),
    decreases s.len(),
{
    if s.len() == 0 || !spec_alnum(s[0]) {
    } else {
        lemma_alnum_run_bound(s.drop_first());
        assert forall|j: int| 0 <= j < spec_alnum_run(s) implies spec_alnum(s[j]) by {
            if j > 0 {
                assert(s.drop_first()[j - 1] == s[j]);
            }
        }
        if spec_alnum_run(s) < s.len() {
            assert(s.drop_first()[spec_alnum_run(s) - 1] == s[spec_alnum_run(s)]);
        }
    }
}

/// Strips the runtime prefix off a container id reference and takes the
/// id: the run of id characters that follows the prefix.  A reference
/// without the prefix yields nothing.
pub fn extract_container_id(s: &str) -> (r: Option<String>)
    ensures
        match r {
            Some(id) => s@.len() >= spec_runtime_prefix().len() && s@.take(
                spec_runtime_prefix().len() as int,
            ) == spec_runtime_prefix() && id@ == s@.skip(spec_runtime_prefix().len() as int).take(
                spec_alnum_run(s@.skip(spec_runtime_prefix().len() as int)),
            ),
            None => s@.len() < spec_runtime_prefix().len() || s@.take(
                spec_runtime_prefix().len() as int,
            ) != spec_runtime_prefix(),
        },
{
    let prefix = "containerd://";
    proof {
        reveal_strlit("containerd://");
    }
    let plen = prefix.unicode_len();
    let n = s.unicode_len();
    if n < plen {
        return None;
    }
    let mut i: usize = 0;
    while i < plen
        invariant
            i <= plen,
            prefix@ == spec_runtime_prefix(),
            plen == spec_runtime_prefix().len(),
            n == s@.len(),
            n >= plen,
            forall|j: int| 0 <= j < i ==> s@[j] == spec_runtime_prefix()[j],
        decreases plen - i,
    {
        proof {
            reveal_strlit("containerd://");
        }
        if s.get_char(i) != prefix.get_char(i) {
            proof {
                assert(s@.take(plen as int)[i as int] != spec_runtime_prefix()[i as int]);
            }
            return None;
        }
        i += 1;
    }
    proof {
        assert(s@.take(plen as int) =~= spec_runtime_prefix());
    }
    let ghost rest = s@.skip(plen as int);
    let mut id = String::new();
    let mut k: usize = plen;
    proof {
        lemma_alnum_run_bound(rest);
    }
    let mut done = false;
    while k < n && !done
        invariant
            plen <= k <= n,
            n == s@.len(),
            rest == s@.skip(plen as int),
            plen == spec_runtime_prefix().len(),
            id@ == rest.take(k - plen),
            forall|j: int| 0 <= j < k - plen ==> spec_alnum(rest[j]),
            done ==> k < n && !spec_alnum(rest[k - plen]),
        decreases n - k, (if done { 0int } else { 1int }),
    {
        let c = s.get_char(k);
        if is_alnum(c) {
            push_char(&mut id, c);
            proof {
                assert(rest[k - plen] == s@[k as int]);
                assert(rest.take(k - plen).push(s@[k as int]) =~= rest.take(k + 1 - plen));
            }
            k += 1;
        } else {
            done = true;
            proof {
                assert(rest[k - plen] == s@[k as int]);
            }
        }
    }
    proof {
        lemma_alnum_run_bound(rest);
        let run = spec_alnum_run(rest);
        if k < n {
            assert(rest[k - plen] == s@[k as int]);
            assert(!spec_alnum(rest[k - plen]));
            assert(run <= k - plen);
            assert(run >= k - plen);
        } else {
            assert(run == rest.len());
        }
        assert(id@ == rest.take(run));
    }
    Some(id)
}

/// Whether a character counts as blank when a procfs line is trimmed.
pub open spec fn spec_blank(c: char) -> bool {
    c == ' ' || c == '\t' || c == '\n' || c == '\r'
}

fn is_blank(c: char) -> (r: bool)
    ensures
        r == spec_blank(c),
{
    c == ' ' || c == '\t' || c == '\n' || c == '\r'
}

/// The value of a decimal digit character.
pub open spec fn spec_digit_val(c: char) -> int {
    c as int - '0' as int
}

/// Whether every character of `s` is a decimal digit.
pub open spec fn spec_all_digits(s: Seq<char>) -> bool {
    forall|i: int| 0 <= i < s.len() ==> '0' <= #[trigger] s[i] && s[i] <= '9'
}

/// The number a digit string denotes, most significant digit first.
pub open spec fn spec_digits_value(s: Seq<char>) -> int
    decreases s.len(),
{
    if s.len() == 0 {
        0
    } else {
        spec_digits_value(s.drop_last()) * 10 + spec_digit_val(s.last())
    }
}

/// Parses a decimal number: defined exactly on nonempty all-digit strings
/// whose value fits, as the container-spec paths carry them.
pub fn parse_u32(s: &str) -> (r: Option<u32>)
    ensures
        match r {
            Some(v) => s@.len() > 0 && spec_all_digits(s@) && v == spec_digits_value(s@),
            None => s@.len() == 0 || !spec_all_digits(s@) || spec_digits_value(s@) > u32::MAX,
        },
{
    let n = s.unicode_len();
    if n == 0 {
        return None;
    }
    let mut acc: u64 = 0;
    let mut i: usize = 0;
    while i < n
        invariant
            i <= n,
            n == s@.len(),
            spec_all_digits(s@.take(i as int)),
            acc == spec_digits_value(s@.take(i as int)),
            acc <= u32::MAX,
        decreases n - i,
    {
        let c = s.get_char(i);
        if !('0' <= c && c <= '9') {
            proof {
                assert(s@[i as int] == c);
            }
            return None;
        }
        let d: u64 = (c as u32 - '0' as u32) as u64;
        acc = acc * 10 + d;
        proof {
            assert(s@.take(i + 1).drop_last() =~= s@.take(i as int));
            assert(s@.take(i + 1).last() == s@[i as int]);
            assert(spec_all_digits(s@.take(i + 1)));
        }
        if acc > 0xffff_ffff {
            proof {
                let t = s@.take(i + 1);
                assert(spec_digits_value(t) == acc);
                if spec_all_digits(s@) {
                    lemma_digits_value_grows(t, s@);
                }
            }
            return None;
        }
        i += 1;
    }
    proof {
        assert(s@.take(n as int) =~= s@);
    }
    Some(acc as u32)
}

/// A digit string's value never shrinks as digits are appended: the value
/// of a prefix bounds the value of the whole.
proof fn lemma_digits_value_grows(p: Seq<char>, s: Seq<char>)
    requires
        p.len() <= s.len(),
        forall|i: int| 0 <= i < p.len() ==> p[i] == s[i],
        spec_all_digits(s),
        p.len() > 0,
    ensures
        spec_digits_value(s) >= spec_digits_value(p),
    decreases s.len() - p.len(),
{
    if p.len() == s.len() {
        assert(p =~= s);
    } else {
        assert(spec_all_digits(p)) by {
            assert(forall|i: int| 0 <= i < p.len() ==> #[trigger] p[i] == s[i]);
        }
        lemma_digits_value_nonneg(p);
        let q = s.take(p.len() as int + 1);
        assert(q.drop_last() =~= p);
        assert(q.last() == s[p.len() as int]);
        assert('0' <= q.last() && q.last() <= '9');
        assert(spec_digits_value(q) == spec_digits_value(p) * 10 + spec_digit_val(q.last()));
        assert(spec_digits_value(p) * 10 >= spec_digits_value(p)) by (nonlinear_arith)
            requires spec_digits_value(p) >= 0;
        lemma_digits_value_grows(q, s);
    }
}

proof fn lemma_digits_value_nonneg(s: Seq<char>)
    requires
        spec_all_digits(s),
    ensures
        spec_digits_value(s) >= 0,
    decreases s.len(),
{
    if s.len() > 0 {
        assert(spec_all_digits(s.drop_last())) by {
            assert(forall|i: int| 0 <= i < s.len() - 1 ==> s.drop_last()[i] == s[i]);
        }
        lemma_digits_value_nonneg(s.drop_last());
        assert(spec_digits_value(s.drop_last()) * 10 >= 0) by (nonlinear_arith)
            requires spec_digits_value(s.drop_last()) >= 0;
    }
}

/// The index right after the first separator pair `::` of a procfs cgroup
/// line, if the line has one.
pub open spec fn spec_dsep_at(s: Seq<char>, i: int) -> bool {
    0 <= i && i + 1 < s.len() && s[i] == ':' && s[i + 1] == ':'
}

fn find_dsep(s: &str, from: usize) -> (r: Option<usize>)
    requires
        from <= s@.len(),
    ensures
        match r {
            Some(i) => from <= i && spec_dsep_at(s@, i as int) && forall|j: int|
                from <= j < i ==> !spec_dsep_at(s@, j),
            None => forall|j: int| from <= j < s@.len() ==> !spec_dsep_at(s@, j),
        },
{
    let n = s.unicode_len();
    let mut i: usize = from;
    while i < n && i + 1 < n
        invariant
            from <= i,
            i <= n,
            n == s@.len(),
            forall|j: int| from <= j < i ==> !spec_dsep_at(s@, j),
        decreases n - i,
    {
        if s.get_char(i) == ':' && s.get_char(i + 1) == ':' {
            return Some(i);
        }
        i += 1;
    }
    None
}

fn copy_range(s: &str, from: usize, to: usize) -> (r: String)
    requires
        from <= to <= s@.len(),
    ensures
        r@ == s@.subrange(from as int, to as int),
{
    let mut out = String::new();
    let mut i: usize = from;
    while i < to
        invariant
            from <= i <= to,
            to <= s@.len(),
            out@ == s@.subrange(from as int, i as int),
        decreases to - i,
    {
        let c = s.get_char(i);
        push_char(&mut out, c);
        proof {
            assert(s@.subrange(from as int, i as int).push(s@[i as int]) =~= s@.subrange(
                from as int,
                i + 1,
            ));
        }
        i += 1;
    }
    out
}

/// The cgroup path a procfs `cgroup` line names: the part between the
/// first separator pair and the next (or the end), blanks stripped from
/// both ends, under the cgroup mount root.
pub fn parse_cgroup_line(s: &str) -> (r: Option<String>)
    ensures
        match r {
            Some(path) => exists|a: int, b: int|
                #![trigger spec_dsep_at(s@, a), s@.subrange(a + 2, b)]
                {
                    &&& spec_dsep_at(s@, a)
                    &&& (forall|j: int| 0 <= j < a ==> !spec_dsep_at(s@, j))
                    &&& a + 2 <= b <= s@.len()
                    &&& (b < s@.len() ==> spec_dsep_at(s@, b))
                    &&& (forall|j: int| a + 2 <= j < b ==> !spec_dsep_at(s@, j))
                    &&& path@ == "/sys/fs/cgroup"@ + spec_trimmed(s@.subrange(a + 2, b))
                },
            None => forall|j: int| 0 <= j < s@.len() ==> !spec_dsep_at(s@, j),
        },
{
    let n = s.unicode_len();
    let a = match find_dsep(s, 0) {
        Some(a) => a,
        None => {
            return None;
        },
    };
    let b = match find_dsep(s, a + 2) {
        Some(b) => b,
        None => n,
    };
    let part = copy_range(s, a + 2, b);
    let trimmed = trim_blanks(part.as_str());
    let mut out = String::from_str("/sys/fs/cgroup");
    out.append(trimmed.as_str());
    proof {
        let ga = a as int;
        let gb = b as int;
        assert(spec_dsep_at(s@, ga) && (forall|j: int| 0 <= j < ga ==> !spec_dsep_at(s@, j))
            && ga + 2 <= gb <= s@.len() && (gb < s@.len() ==> spec_dsep_at(s@, gb)) && (forall|
            j: int,
        | ga + 2 <= j < gb ==> !spec_dsep_at(s@, j)) && out@ == "/sys/fs/cgroup"@ + spec_trimmed(
            s@.subrange(ga + 2, gb),
        ));
    }
    Some(out)
}

/// `s` without its leading and trailing blanks: the slice between the
/// first and last non-blank characters.
pub open spec fn spec_trimmed(s: Seq<char>) -> Seq<char> {
    spec_trim_end(spec_trim_start(s))
}

pub open spec fn spec_trim_start(s: Seq<char>) -> Seq<char>
    decreases s.len(),
{
    if s.len() > 0 && spec_blank(s[0]) {
        spec_trim_start(s.drop_first())
    } else {
        s
    }
}

pub open spec fn spec_trim_end(s: Seq<char>) -> Seq<char>
    decreases s.len(),
{
    if s.len() > 0 && spec_blank(s.last()) {
        spec_trim_end(s.drop_last())
    } else {
        s
    }
}

proof fn lemma_trim_start_skip(s: Seq<char>, i: int)
    requires
        0 <= i <= s.len(),
        forall|j: int| 0 <= j < i ==> spec_blank(s[j]),
    ensures
        spec_trim_start(s) == spec_trim_start(s.skip(i)),
    decreases i,
{
    if i > 0 {
        assert(spec_blank(s[0]));
        assert(spec_trim_start(s) == spec_trim_start(s.drop_first()));
        assert(s.drop_first() =~= s.skip(1));
        assert forall|j: int| 0 <= j < i - 1 implies spec_blank(#[trigger] s.skip(1)[j]) by {
            assert(s.skip(1)[j] == s[j + 1]);
        }
        lemma_trim_start_skip(s.skip(1), i - 1);
        assert(s.skip(1).skip(i - 1) =~= s.skip(i));
        assert(spec_trim_start(s.skip(1).skip(i - 1)) == spec_trim_start(s.skip(i)));
    } else {
        assert(s.skip(0) =~= s);
    }
}

proof fn lemma_trim_end_take(s: Seq<char>, i: int)
    requires
        0 <= i <= s.len(),
        forall|j: int| i <= j < s.len() ==> spec_blank(s[j]),
    ensures
        spec_trim_end(s) == spec_trim_end(s.take(i)),
    decreases s.len() - i,
{
    if i < s.len() {
        assert(spec_blank(s.last()));
        assert(spec_trim_end(s) == spec_trim_end(s.drop_last()));
        assert(s.drop_last() =~= s.take(s.len() as int - 1));
        assert forall|j: int| i <= j < s.len() - 1 implies spec_blank(
            #[trigger] s.take(s.len() as int - 1)[j],
        ) by {
            assert(s.take(s.len() as int - 1)[j] == s[j]);
        }
        lemma_trim_end_take(s.take(s.len() as int - 1), i);
        assert(s.take(s.len() as int - 1).take(i) =~= s.take(i));
        assert(spec_trim_end(s.take(s.len() as int - 1).take(i)) == spec_trim_end(s.take(i)));
    } else {
        assert(s.take(i) =~= s);
    }
}

/// Strips blanks off both ends of a string.
pub fn trim_blanks(s: &str) -> (r: String)
    ensures
        r@ == spec_trimmed(s@),
{
    let n = s.unicode_len();
    let mut a: usize = 0;
    let mut stop_a = false;
    while a < n && !stop_a
        invariant
            a <= n,
            n == s@.len(),
            forall|j: int| 0 <= j < a ==> spec_blank(s@[j]),
            stop_a ==> a < n && !spec_blank(s@[a as int]),
        decreases n - a, (if stop_a { 0int } else { 1int }),
    {
        let c = s.get_char(a);
        if is_blank(c) {
            a += 1;
        } else {
            stop_a = true;
        }
    }
    let mut b: usize = n;
    let mut stop_b = false;
    while b > a && !stop_b
        invariant
            a <= b <= n,
            n == s@.len(),
            forall|j: int| 0 <= j < a ==> spec_blank(s@[j]),
            forall|j: int| b <= j < n ==> spec_blank(s@[j]),
            stop_b ==> b > a && !spec_blank(s@[b - 1]),
        decreases b, (if stop_b { 0int } else { 1int }),
    {
        let c = s.get_char(b - 1);
        if is_blank(c) {
            b -= 1;
        } else {
            stop_b = true;
        }
    }
    let r = copy_range(s, a, b);
    proof {
        lemma_trim_start_skip(s@, a as int);
        let t = s@.skip(a as int);
        if a < n && b > a {
            assert(!spec_blank(s@[a as int]));
            assert(t[0] == s@[a as int]);
            assert(spec_trim_start(t) == t);
        } else {
            assert(a == b);
            if a < n {
                assert(!spec_blank(s@[a as int]));
                assert(spec_trim_start(t) == t);
            } else {
                assert(t.len() == 0);
                assert(spec_trim_start(t) == t);
            }
        }
        assert forall|j: int| b - a <= j < t.len() implies spec_blank(t[j]) by {
            assert(t[j] == s@[j + a]);
        }
        lemma_trim_end_take(t, b - a);
        let u = t.take(b - a);
        if b > a {
            assert(!spec_blank(s@[b - 1]));
            assert(u.last() == s@[b - 1]);
            assert(spec_trim_end(u) == u);
        } else {
            assert(u.len() == 0);
            assert(spec_trim_end(u) == u);
        }
        assert(r@ =~= u);
        assert(r@ == spec_trimmed(s@));
    }
    r
}

/// Whether the namespace at `i` is of type `network`.
pub open spec fn spec_network_ns_at(ns: Seq<crate::model::Namespace>, i: int) -> bool {
    0 <= i < ns.len() && (ns[i].nstype matches Some(t) && t@ == "network"@)
}

/// Whether `i` is the first network namespace of the listing.
pub open spec fn spec_first_network_ns(ns: Seq<crate::model::Namespace>, i: int) -> bool {
    spec_network_ns_at(ns, i) && forall|j: int| 0 <= j < i ==> !spec_network_ns_at(ns, j)
}

/// Extracts the process id out of a namespace path `/proc/<pid>/ns/net`:
/// the digits of the second segment of the first network namespace's
/// path.  A listing without a network namespace, a namespace without a
/// path, or a path without such a number yields nothing.
pub fn extract_namespace_pid(namespaces: &Vec<crate::model::Namespace>) -> (r: Option<u32>)
    ensures
        match r {
            Some(pid) => exists|i: int|
                #![trigger spec_first_network_ns(namespaces@, i)]
                spec_first_network_ns(namespaces@, i) && (namespaces@[i].path matches Some(p)
                    && spec_valid_proc_pid(p@, pid as int)),
            None => forall|i: int|
                #![trigger spec_first_network_ns(namespaces@, i)]
                spec_first_network_ns(namespaces@, i) ==> match namespaces@[i].path {
                    Some(p) => forall|pid: int|
                        0 <= pid <= u32::MAX ==> !spec_valid_proc_pid(p@, pid),
                    None => true,
                },
        },
{
    let net = String::from_str("network");
    let mut i: usize = 0;
    while i < namespaces.len()
        invariant
            i <= namespaces@.len(),
            net@ == "network"@,
            forall|j: int| 0 <= j < i ==> !spec_network_ns_at(namespaces@, j),
        decreases namespaces@.len() - i,
    {
        let nst = namespaces[i].nstype.as_ref();
        let matches_net = match nst {
            Some(t) => *t == net,
            None => false,
        };
        if matches_net {
            proof {
                assert(namespaces@[i as int].nstype is Some);
                assert(namespaces@[i as int].nstype->Some_0@ == "network"@);
                assert(spec_network_ns_at(namespaces@, i as int));
                assert(spec_first_network_ns(namespaces@, i as int));
                assert forall|k: int| spec_first_network_ns(namespaces@, k) implies k
                    == i as int by {
                    if k < i as int {
                        assert(!spec_network_ns_at(namespaces@, k));
                    } else if k > i as int {
                        assert(spec_network_ns_at(namespaces@, i as int));
                    }
                }
            }
            let pth = namespaces[i].path.as_ref();
            match pth {
                Some(p) => {
                    let r = parse_proc_pid(p.as_str());
                    proof {
                        assert(namespaces@[i as int].path is Some);
                        assert(namespaces@[i as int].path->Some_0@ == p@);
                    }
                    return r;
                },
                None => {
                    proof {
                        assert(namespaces@[i as int].path is None);
                    }
                    return None;
                },
            }
        } else {
            proof {
                assert(!spec_network_ns_at(namespaces@, i as int));
            }
        }
        i += 1;
    }
    proof {
        assert forall|k: int| !spec_first_network_ns(namespaces@, k) by {
            if 0 <= k < namespaces@.len() {
                assert(!spec_network_ns_at(namespaces@, k));
            }
        }
    }
    None
}

/// Whether `pid` is the number the path `s` carries: the digits of its
/// second slash-separated segment.
pub open spec fn spec_valid_proc_pid(s: Seq<char>, pid: int) -> bool {
    exists|a: int, b: int|
        #![trigger spec_second_segment(s, a, b)]
        {
            &&& spec_second_segment(s, a, b)
            &&& b - a > 0
            &&& spec_all_digits(s.subrange(a, b))
            &&& pid == spec_digits_value(s.subrange(a, b))
        }
}

proof fn lemma_count_slashes_step(s: Seq<char>, j: int)
    requires
        0 <= j < s.len(),
    ensures
        spec_count_slashes(s.take(j + 1)) == spec_count_slashes(s.take(j)) + (if s[j] == '/' {
            1int
        } else {
            0int
        }),
{
    assert(s.take(j + 1).drop_last() =~= s.take(j));
    assert(s.take(j + 1).last() == s[j]);
}

proof fn lemma_count_slashes_mono(s: Seq<char>, j: int, k: int)
    requires
        0 <= j <= k <= s.len(),
    ensures
        spec_count_slashes(s.take(j)) <= spec_count_slashes(s.take(k)),
    decreases k - j,
{
    if j < k {
        lemma_count_slashes_step(s, k - 1);
        lemma_count_slashes_mono(s, j, k - 1);
    }
}

/// The process id a `/proc/<pid>/...` path names: the digits of its
/// second slash-separated segment.  A number comes back exactly when the
/// path has such a segment, it is all digits, and the value fits.
pub fn parse_proc_pid(s: &str) -> (r: Option<u32>)
    ensures
        match r {
            Some(pid) => spec_valid_proc_pid(s@, pid as int),
            None => forall|pid: int| 0 <= pid <= u32::MAX ==> !spec_valid_proc_pid(s@, pid),
        },
{
    let n = s.unicode_len();
    let mut slashes: usize = 0;
    let mut i: usize = 0;
    let mut start: usize = 0;
    while i < n && slashes < 2
        invariant
            i <= n,
            n == s@.len(),
            slashes <= 2,
            slashes == spec_count_slashes(s@.take(i as int)),
            slashes == 2 ==> start == i && i > 0 && s@[i - 1] == '/',
            slashes == 2 ==> spec_count_slashes(s@.take(i - 1)) == 1,
        decreases n - i,
    {
        proof {
            assert(s@.take(i + 1).drop_last() =~= s@.take(i as int));
            assert(s@.take(i + 1).last() == s@[i as int]);
        }
        if s.get_char(i) == '/' {
            slashes += 1;
            start = i + 1;
        }
        i += 1;
    }
    if slashes < 2 {
        proof {
            assert(i == n);
            assert forall|pid: int| 0 <= pid <= u32::MAX implies !spec_valid_proc_pid(
                s@,
                pid,
            ) by {
                if spec_valid_proc_pid(s@, pid) {
                    let (a, b) = choose|a: int, b: int|
                        #![trigger spec_second_segment(s@, a, b)]
                        {
                            &&& spec_second_segment(s@, a, b)
                            &&& b - a > 0
                            &&& spec_all_digits(s@.subrange(a, b))
                            &&& pid == spec_digits_value(s@.subrange(a, b))
                        };
                    lemma_count_slashes_mono(s@, a, n as int);
                }
            }
        }
        return None;
    }
    let mut end: usize = start;
    let mut stop_e = false;
    while end < n && !stop_e
        invariant
            start <= end <= n,
            n == s@.len(),
            forall|j: int| start <= j < end ==> s@[j] != '/',
            stop_e ==> end < n && s@[end as int] == '/',
        decreases n - end, (if stop_e { 0int } else { 1int }),
    {
        let c = s.get_char(end);
        if c != '/' {
            end += 1;
        } else {
            stop_e = true;
        }
    }
    proof {
        // the candidate span [start, end) is the only span any valid pid
        // could name
        assert forall|a: int, b: int|
            spec_second_segment(s@, a, b) && b - a > 0 implies a == start && b == end by {
            if a < start {
                lemma_count_slashes_mono(s@, a, start - 1);
            } else if a > start {
                lemma_count_slashes_step(s@, a - 1);
                lemma_count_slashes_mono(s@, start as int, a - 1);
            }
            if b < end {
                assert(s@[b] == '/');
            } else if b > end {
                assert(end < n);
                assert(s@[end as int] == '/');
                assert(s@[end as int] != '/');
            }
        }
    }
    let seg = copy_range(s, start, end);
    match parse_u32(seg.as_str()) {
        Some(pid) => {
            proof {
                let a = start as int;
                let b = end as int;
                assert(seg@ == s@.subrange(a, b));
                assert(seg@.len() > 0);
                assert(spec_second_segment(s@, a, b));
            }
            Some(pid)
        },
        None => {
            proof {
                assert forall|pid: int| 0 <= pid <= u32::MAX implies !spec_valid_proc_pid(
                    s@,
                    pid,
                ) by {
                    if spec_valid_proc_pid(s@, pid) {
                        let (a, b) = choose|a: int, b: int|
                            #![trigger spec_second_segment(s@, a, b)]
                            {
                                &&& spec_second_segment(s@, a, b)
                                &&& b - a > 0
                                &&& spec_all_digits(s@.subrange(a, b))
                                &&& pid == spec_digits_value(s@.subrange(a, b))
                            };
                        assert(a == start && b == end);
                        assert(seg@ == s@.subrange(a, b));
                    }
                }
            }
            None
        },
    }
}

/// The number of separators in a piece of a path.
pub open spec fn spec_count_slashes(s: Seq<char>) -> int
    decreases s.len(),
{
    if s.len() == 0 {
        0
    } else {
        spec_count_slashes(s.drop_last()) + (if s.last() == '/' {
            1int
        } else {
            0int
        })
    }
}

/// Whether `[a, b)` spans the second slash-separated segment of `s`: two
/// separators come before it, it holds none, and it runs to the next
/// separator or the end.
pub open spec fn spec_second_segment(s: Seq<char>, a: int, b: int) -> bool {
    &&& 0 < a <= b <= s.len()
    &&& s[a - 1] == '/'
    &&& spec_count_slashes(s.take(a)) == 2
    &&& (forall|j: int| a <= j < b ==> s[j] != '/')
    &&& (b < s.len() ==> s[b] == '/')
}

/// The inode of the first namespace entry with the given name, as a
/// namespace listing of procfs presents them.
pub fn find_namespace_inode(entries: &Vec<(String, u64)>, name: &str) -> (r: Option<u64>)
    ensures
        match r {
            Some(inum) => exists|i: int|
                0 <= i < entries@.len() && (#[trigger] entries@[i]).0@ == name@ && entries@[i].1
                    == inum,
            None => forall|i: int|
                0 <= i < entries@.len() ==> (#[trigger] entries@[i]).0@ != name@,
        },
{
    let mut i: usize = 0;
    while i < entries.len()
        invariant
            i <= entries@.len(),
            forall|j: int| 0 <= j < i ==> (#[trigger] entries@[j]).0@ != name@,
        decreases entries@.len() - i,
    {
        let name_s = String::from_str(name);
        if entries[i].0 == name_s {
            return Some(entries[i].1);
        }
        i += 1;
    }
    None
}

} // verus!
