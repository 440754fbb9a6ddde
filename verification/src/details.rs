//! Extended per-process details.
//!
//! A detail record is assembled from what the OS hands back for one process,
//! field by field and best-effort: a missing working directory becomes an
//! empty string, and an access-denied environment is simply an empty list.
//! A field that the OS reports but that is not valid text makes the whole
//! lookup come back absent — the same policy a bulk listing applies to an
//! undecodable name.

use vstd::prelude::*;

use vstd::string::StringExecFns;

verus! {

/// Extended attributes of one process, fetched on demand.
pub struct ProcessDetails {
    /// The full invocation: argv joined with single spaces (lossy where an
    /// argument itself holds a space).
    pub cmd: String,
    /// Virtual memory in bytes.
    pub virtual_memory: u64,
    /// Bytes read from disk since the process started.
    pub disk_read: u64,
    /// Bytes written to disk since the process started.
    pub disk_write: u64,
    /// The working directory, or an empty string where it is unavailable or
    /// access to it is denied.
    pub cwd: String,
    /// The environment as `KEY=VALUE` strings, in OS order; empty where
    /// access is denied.
    pub env: Vec<String>,
}

/// One process's extended attributes as the OS handed them out, each text
/// field decoded to a string or marked undecodable.
pub struct RawProcessDetails {
    /// argv, each argument `None` where it is not valid text.
    pub cmd: Vec<Option<String>>,
    /// Virtual memory in bytes.
    pub virtual_memory: u64,
    /// Bytes read from disk since the process started.
    pub disk_read: u64,
    /// Bytes written to disk since the process started.
    pub disk_write: u64,
    /// The working directory: `None` where unavailable or denied,
    /// `Some(None)` where reported but not valid text.
    pub cwd: Option<Option<String>>,
    /// The environment entries, each `None` where not valid text.
    pub env: Vec<Option<String>>,
}

/// Whether every field of a best-effort text list decoded.
pub open spec fn all_text(s: Seq<Option<String>>) -> bool {
    forall|i: int| 0 <= i < s.len() ==> s[i] is Some
}

/// The texts of a fully decoded list.
pub open spec fn texts_of(s: Seq<Option<String>>) -> Seq<Seq<char>> {
    Seq::new(s.len(), |i: int| s[i]->Some_0@)
}

/// The texts of a list of strings.
pub open spec fn views_of(s: Seq<String>) -> Seq<Seq<char>> {
    Seq::new(s.len(), |i: int| s[i]@)
}

/// Whether a reported working directory decoded (an absent one is fine).
pub open spec fn cwd_decodable(c: Option<Option<String>>) -> bool {
    match c {
        Some(inner) => inner is Some,
        None => true,
    }
}

/// The text a working-directory report turns into: its path, or empty where
/// the OS reported none.
pub open spec fn spec_cwd_text(c: Option<Option<String>>) -> Seq<char> {
    match c {
        Some(inner) => match inner {
            Some(s) => s@,
            None => Seq::empty(),
        },
        None => Seq::empty(),
    }
}

/// Texts joined with single spaces between them.
pub open spec fn spec_join_spaces(parts: Seq<Seq<char>>) -> Seq<char>
    decreases parts.len(),
{
    if parts.len() == 0 {
        Seq::empty()
    } else if parts.len() == 1 {
        parts[0]
    } else {
        parts[0] + seq![' '] + spec_join_spaces(parts.drop_first())
    }
}

/// Joining one more text appends one space and the text.
proof fn lemma_join_push(parts: Seq<Seq<char>>, x: Seq<char>)
    requires
        parts.len() > 0,
    ensures
        spec_join_spaces(parts.push(x)) == spec_join_spaces(parts) + seq![' '] + x,
    decreases parts.len(),
{
    if parts.len() == 1 {
        assert(parts.push(x)[0] == parts[0]);
        assert(parts.push(x).drop_first() =~= seq![x]);
        assert(spec_join_spaces(seq![x]) == x);
        assert(spec_join_spaces(parts.push(x)) =~= parts[0] + seq![' '] + x);
        assert(spec_join_spaces(parts) == parts[0]);
    } else {
        assert(parts.push(x).drop_first() =~= parts.drop_first().push(x));
        lemma_join_push(parts.drop_first(), x);
        assert(parts[0] + seq![' '] + (spec_join_spaces(parts.drop_first()) + seq![' '] + x) =~= (
        parts[0] + seq![' '] + spec_join_spaces(parts.drop_first())) + seq![' '] + x);
    }
}

/// Joins strings with single spaces, as executable code.
pub fn join_spaces(parts: &Vec<String>) -> (r: String)
    ensures
        r@ == spec_join_spaces(views_of(parts@)),
{
    let ghost vs = views_of(parts@);
    let mut r = String::new();
    let mut i: usize = 0;
    proof {
        reveal_strlit(" ");
        assert(vs.take(0) =~= Seq::<Seq<char>>::empty());
    }
    while i < parts.len()
        invariant
            i <= parts@.len(),
            vs == views_of(parts@),
            vs.len() == parts@.len(),
            r@ == spec_join_spaces(vs.take(i as int)),
        decreases parts@.len() - i,
    {
        proof {
            assert(vs.take(i as int + 1) =~= vs.take(i as int).push(vs[i as int]));
        }
        if i > 0 {
            r.append(" ");
            proof {
                reveal_strlit(" ");
                assert(" "@ =~= seq![' ']);
                lemma_join_push(vs.take(i as int), vs[i as int]);
            }
        } else {
            proof {
                assert(spec_join_spaces(seq![vs[0]]) == vs[0]);
                assert(vs.take(1) =~= seq![vs[0]]);
            }
        }
        r.append(parts[i].as_str());
        i = i + 1;
    }
    proof {
        assert(vs.take(vs.len() as int) =~= vs);
    }
    r
}

/// Decodes a best-effort text list: the texts where every entry decoded,
/// absent where any did not.
pub fn decode_all(parts: &Vec<Option<String>>) -> (r: Option<Vec<String>>)
    ensures
        r is Some <==> all_text(parts@),
        r is Some ==> views_of(r->Some_0@) == texts_of(parts@),
{
    let mut out: Vec<String> = Vec::new();
    let mut i: usize = 0;
    while i < parts.len()
        invariant
            i <= parts@.len(),
            out@.len() == i,
            forall|j: int| 0 <= j < i ==> parts@[j] is Some,
            forall|j: int| 0 <= j < i ==> #[trigger] out@[j]@ == parts@[j]->Some_0@,
        decreases parts@.len() - i,
    {
        match &parts[i] {
            Some(s) => out.push(s.clone()),
            None => {
                return None;
            },
        }
        i = i + 1;
    }
    proof {
        assert(views_of(out@) =~= texts_of(parts@));
    }
    Some(out)
}

/// Assembles a detail record from what the OS handed back: absent exactly
/// where a reported text field did not decode; otherwise every field carried
/// over, argv joined with single spaces, and a missing working directory an
/// empty string.
pub fn details_from_raw(raw: RawProcessDetails) -> (r: Option<ProcessDetails>)
    ensures
        r is Some <==> all_text(raw.cmd@) && all_text(raw.env@) && cwd_decodable(raw.cwd),
        r is Some ==> r->Some_0.cmd@ == spec_join_spaces(texts_of(raw.cmd@)),
        r is Some ==> r->Some_0.virtual_memory == raw.virtual_memory,
        r is Some ==> r->Some_0.disk_read == raw.disk_read,
        r is Some ==> r->Some_0.disk_write == raw.disk_write,
        r is Some ==> r->Some_0.cwd@ == spec_cwd_text(raw.cwd),
        r is Some ==> views_of(r->Some_0.env@) == texts_of(raw.env@),
{
    let cmd_parts = match decode_all(&raw.cmd) {
        Some(v) => v,
        None => {
            return None;
        },
    };
    let env = match decode_all(&raw.env) {
        Some(v) => v,
        None => {
            return None;
        },
    };
    let cwd = match raw.cwd {
        None => String::new(),
        Some(inner) => match inner {
            Some(s) => s,
            None => {
                return None;
            },
        },
    };
    let cmd = join_spaces(&cmd_parts);
    Some(
        ProcessDetails {
            cmd,
            virtual_memory: raw.virtual_memory,
            disk_read: raw.disk_read,
            disk_write: raw.disk_write,
            cwd,
            env,
        },
    )
}

} // verus!
