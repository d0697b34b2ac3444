use vstd::prelude::*;

use crate::text::{
    fields, is_field, join_colon, join_with_colons, lemma_fields_of_join, split_fields, starts_with,
    views, Separator,
};
use vstd::string::StrSliceExecFns;

verus! {

/// Name of the per-checkpoint configuration file in the images directory.
pub const CHECKPOINT_CONFIG_FILE: &'static str = "criu-coordinator-checkpoint.conf";

/// `s` holds no newline.
pub open spec fn single_line(s: Seq<char>) -> bool {
    forall|k: int| 0 <= k < s.len() ==> s[k] != '\n'
}

/// The per-checkpoint configuration that the dump side leaves for the
/// restore side: the participant's identifier and its colon-separated
/// dependencies, one `key=value` line each.
pub open spec fn config_text(id: Seq<char>, deps: Seq<char>) -> Seq<char> {
    "id="@ + id + "\ndependencies="@ + deps + "\n"@
}

/// `s` is a configuration text with identifier `id` and dependency line `deps`.
pub open spec fn is_config_of(s: Seq<char>, id: Seq<char>, deps: Seq<char>) -> bool {
    single_line(id) && single_line(deps) && s == config_text(id, deps)
}

/// What a configuration text declares: the identifier and the dependency list.
pub open spec fn config_contents(s: Seq<char>) -> Option<(Seq<char>, Seq<Seq<char>>)> {
    if exists|id: Seq<char>, deps: Seq<char>| is_config_of(s, id, deps) {
        let (id, deps) = choose|id: Seq<char>, deps: Seq<char>| is_config_of(s, id, deps);
        Some((id, fields(deps, Separator::Colon)))
    } else {
        None
    }
}

proof fn lemma_config_text_parts(id: Seq<char>, deps: Seq<char>)
    ensures
        config_text(id, deps).len() == (id.len() as int) + (deps.len() as int) + 18,
        forall|k: int| 0 <= k < (id.len() as int) ==> config_text(id, deps)[3 + k] == id[k],
        config_text(id, deps)[3 + (id.len() as int)] == '\n',
        forall|k: int| 0 <= k < (deps.len() as int) ==> config_text(id, deps)[17 + (id.len() as int) + k] == deps[k],
        config_text(id, deps).subrange(0, 3) == "id="@,
        config_text(id, deps).subrange(3, 3 + (id.len() as int)) == id,
        config_text(id, deps).subrange(4 + (id.len() as int), 17 + (id.len() as int)) == "dependencies="@,
        config_text(id, deps).subrange(17 + (id.len() as int), 17 + (id.len() as int) + (deps.len() as int)) == deps,
        config_text(id, deps).last() == '\n',
{
    reveal_strlit("id=");
    reveal_strlit("\ndependencies=");
    reveal_strlit("dependencies=");
    reveal_strlit("\n");
    let t = config_text(id, deps);
    assert(t =~= "id="@ + id + "\ndependencies="@ + deps + "\n"@);
    assert(t.subrange(0, 3) =~= "id="@);
    assert(t.subrange(3, 3 + (id.len() as int)) =~= id);
    assert(t.subrange(4 + (id.len() as int), 17 + (id.len() as int)) =~= "dependencies="@);
    assert(t.subrange(17 + (id.len() as int), 17 + (id.len() as int) + (deps.len() as int)) =~= deps);
}

/// A configuration text determines its identifier and dependency line.
proof fn lemma_config_text_injective(id1: Seq<char>, deps1: Seq<char>, id2: Seq<char>, deps2: Seq<char>)
    requires
        is_config_of(config_text(id1, deps1), id2, deps2),
        single_line(id1),
    ensures
        id1 == id2,
        deps1 == deps2,
{
    lemma_config_text_parts(id1, deps1);
    lemma_config_text_parts(id2, deps2);
    let t = config_text(id1, deps1);
    if (id1.len() as int) < (id2.len() as int) {
        assert(t[3 + (id1.len() as int)] == id2[(id1.len() as int) as int]);
    } else if (id2.len() as int) < (id1.len() as int) {
        assert(t[3 + (id2.len() as int)] == id1[(id2.len() as int) as int]);
    }
    assert(id1 =~= id2);
    assert(deps1 =~= deps2);
}

/// Writes the per-checkpoint configuration of `id` with dependencies `deps`.
pub fn encode_checkpoint_config(id: &str, deps: &Vec<String>) -> (r: String)
    ensures
        r@ == config_text(id@, join_colon(views(deps@))),
{
    let mut s = String::from_str("id=");
    s.append(id);
    s.append("\ndependencies=");
    let joined = join_with_colons(deps);
    s.append(joined.as_str());
    s.append("\n");
    s
}

fn find_newline(s: &str, from: usize) -> (r: Option<usize>)
    requires
        from <= s@.len(),
    ensures
        match r {
            Some(i) => from <= i < s@.len() && s@[i as int] == '\n' && forall|k: int|
                from <= k < i ==> s@[k] != '\n',
            None => forall|k: int| from <= k < s@.len() ==> s@[k] != '\n',
        },
{
    let n = s.unicode_len();
    let mut i = from;
    while i < n
        invariant
            n == s@.len(),
            from <= i <= n,
            forall|k: int| from <= k < i ==> s@[k] != '\n',
        decreases n - i,
    {
        if s.get_char(i) == '\n' {
            return Some(i);
        }
        i = i + 1;
    }
    None
}

/// Reads a per-checkpoint configuration; `None` where `text` is not one.
pub fn decode_checkpoint_config(text: &str) -> (r: Option<(String, Vec<String>)>)
    ensures
        match r {
            Some((id, deps)) => config_contents(text@) == Some((id@, views(deps@))),
            None => config_contents(text@) is None,
        },
{
    proof {
        reveal_strlit("id=");
        reveal_strlit("dependencies=");
    }
    let n = text.unicode_len();
    let ghost t = text@;
    if !starts_with(text, "id=") {
        proof {
            assert forall|id: Seq<char>, deps: Seq<char>| !is_config_of(t, id, deps) by {
                if is_config_of(t, id, deps) {
                    lemma_config_text_parts(id, deps);
                    assert(t.subrange(0, 3) == "id="@);
                }
            }
        }
        return None;
    }
    let a = match find_newline(text, 3) {
        Some(a) => a,
        None => {
            proof {
                assert forall|id: Seq<char>, deps: Seq<char>| !is_config_of(t, id, deps) by {
                    if is_config_of(t, id, deps) {
                        lemma_config_text_parts(id, deps);
                        assert(t[3 + (id.len() as int)] == '\n');
                    }
                }
            }
            return None;
        },
    };
    let rest = text.substring_char(a + 1, n);
    let ghost b0 = a + 14;
    if !starts_with(rest, "dependencies=") || n == 0 || text.get_char(n - 1) != '\n' || a + 14 > n - 1 {
        proof {
            assert forall|id: Seq<char>, deps: Seq<char>| !is_config_of(t, id, deps) by {
                if is_config_of(t, id, deps) {
                    lemma_config_text_parts(id, deps);
                    if (id.len() as int) + 3 < a {
                        assert(t[3 + (id.len() as int)] == '\n');
                    } else if a < (id.len() as int) + 3 {
                        assert(t[a as int] == id[a - 3]);
                    }
                    assert(a == 3 + (id.len() as int));
                    assert(rest@.subrange(0, 13) =~= t.subrange(4 + (id.len() as int), 17 + (id.len() as int)));
                    assert(t[n - 1] == '\n');
                }
            }
        }
        return None;
    }
    match find_newline(text, a + 14) {
        Some(b) => {
            if b != n - 1 {
                proof {
                    assert forall|id: Seq<char>, deps: Seq<char>| !is_config_of(t, id, deps) by {
                        if is_config_of(t, id, deps) {
                            lemma_config_text_parts(id, deps);
                            if (id.len() as int) + 3 < a {
                                assert(t[3 + (id.len() as int)] == '\n');
                            } else if a < (id.len() as int) + 3 {
                                assert(t[a as int] == id[a - 3]);
                            }
                            assert(t[b as int] == deps[b - 17 - (id.len() as int)]);
                        }
                    }
                }
                return None;
            }
        },
        None => {},
    }
    let id = text.substring_char(3, a).to_owned();
    let deps_line = text.substring_char(a + 14, n - 1);
    let deps = split_fields(deps_line, Separator::Colon);
    proof {
        assert(rest@.subrange(0, 13) == "dependencies="@);
        assert(t.subrange(a + 1, a + 14) =~= rest@.subrange(0, 13));
        reveal_strlit("\n");
        reveal_strlit("\ndependencies=");
        assert(t =~= t.subrange(0, 3) + t.subrange(3, a as int) + t.subrange(a as int, a + 14)
            + t.subrange(a + 14, n - 1) + t.subrange(n - 1, n as int));
        assert(t[a as int] == '\n');
        assert(t.subrange(a as int, a + 14) =~= seq!['\n'] + t.subrange(a + 1, a + 14));
        assert("\ndependencies="@ =~= seq!['\n'] + "dependencies="@);
        assert(t.subrange(a as int, a + 14) =~= "\ndependencies="@);
        assert(t.subrange(n - 1, n as int) =~= "\n"@);
        assert(t =~= config_text(id@, deps_line@));
        assert(is_config_of(t, id@, deps_line@));
        let (id2, deps2) = choose|id2: Seq<char>, deps2: Seq<char>| is_config_of(t, id2, deps2);
        lemma_config_text_injective(id@, deps_line@, id2, deps2);
    }
    Some((id, deps))
}

/// The restore side reads back what the dump side wrote: the identifier and
/// the dependency list, where neither holds a newline and each dependency is
/// a non-empty identifier without `:`.
pub proof fn lemma_config_round_trip(id: Seq<char>, deps: Seq<Seq<char>>)
    requires
        single_line(id),
        forall|k: int| 0 <= k < (deps.len() as int) ==> is_field(#[trigger] deps[k], Separator::Colon)
            && single_line(deps[k]),
    ensures
        config_contents(config_text(id, join_colon(deps))) == Some((id, deps)),
{
    let d = join_colon(deps);
    lemma_join_single_line(deps);
    let t = config_text(id, d);
    assert(is_config_of(t, id, d));
    let (id2, d2) = choose|id2: Seq<char>, d2: Seq<char>| is_config_of(t, id2, d2);
    lemma_config_text_injective(id, d, id2, d2);
    lemma_fields_of_join(deps);
}

proof fn lemma_join_single_line(deps: Seq<Seq<char>>)
    requires
        forall|k: int| 0 <= k < (deps.len() as int) ==> single_line(#[trigger] deps[k]),
    ensures
        single_line(join_colon(deps)),
    decreases (deps.len() as int),
{
    if (deps.len() as int) > 1 {
        let front = deps.drop_last();
        assert(forall|k: int| 0 <= k < front.len() ==> front[k] == deps[k]);
        lemma_join_single_line(front);
        let j = join_colon(deps);
        assert(j == join_colon(front) + seq![':'] + deps.last());
        assert(single_line(deps[(deps.len() as int) - 1]));
        assert forall|k: int| 0 <= k < j.len() implies j[k] != '\n' by {
            let f = join_colon(front);
            if k < (f.len() as int) {
                assert(j[k] == f[k]);
            } else if k > (f.len() as int) {
                assert(j[k] == deps.last()[k - (f.len() as int) - 1]);
            }
        }
    } else if (deps.len() as int) == 1 {
        assert(single_line(deps[0]));
    }
}

} // verus!
