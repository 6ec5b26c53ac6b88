//! Maven-style coordinates (`group:artifact:version[:classifier][@ext]`) and
//! the relative paths they name.

use vstd::prelude::*;
use crate::error::LaunchError;
use crate::text::{chars_of, string_of, push_chars, push_str, swap_char};

verus! {

/// `s` cut at every `c`; always at least one piece.
pub open spec fn split_spec(s: Seq<char>, c: char) -> Seq<Seq<char>>
    decreases s.len(),
{
    if s.len() == 0 {
        seq![Seq::<char>::empty()]
    } else {
        let p = split_spec(s.drop_last(), c);
        if s.last() == c {
            p.push(Seq::<char>::empty())
        } else {
            p.update(p.len() - 1, p.last().push(s.last()))
        }
    }
}

pub proof fn lemma_split_nonempty(s: Seq<char>, c: char)
    ensures
        split_spec(s, c).len() >= 1,
    decreases s.len(),
{
    if s.len() > 0 {
        lemma_split_nonempty(s.drop_last(), c);
    }
}

/// Views of a vector of character vectors.
pub open spec fn views(v: Seq<Vec<char>>) -> Seq<Seq<char>> {
    v.map_values(|x: Vec<char>| x@)
}

/// `s` cut at every `c`.
pub fn split_chars(s: &Vec<char>, c: char) -> (r: Vec<Vec<char>>)
    ensures
        views(r@) == split_spec(s@, c),
        r@.len() >= 1,
{
    let mut parts: Vec<Vec<char>> = Vec::new();
    let mut cur: Vec<char> = Vec::new();
    let mut i: usize = 0;
    proof {
        assert(s@.take(0) =~= Seq::<char>::empty());
        assert(views(parts@).push(cur@) =~= split_spec(s@.take(0), c));
    }
    while i < s.len()
        invariant
            i <= s@.len(),
            views(parts@).push(cur@) == split_spec(s@.take(i as int), c),
        decreases s@.len() - i,
    {
        let ch = s[i];
        let ghost prev_parts = parts@;
        let ghost prev_cur = cur@;
        proof {
            assert(s@.take(i as int + 1).drop_last() =~= s@.take(i as int));
            assert(s@.take(i as int + 1).last() == ch);
        }
        if ch == c {
            let done = cur;
            parts.push(done);
            cur = Vec::new();
            proof {
                assert(views(parts@) =~= views(prev_parts).push(prev_cur));
            }
        } else {
            cur.push(ch);
            proof {
                assert(views(parts@).push(cur@) =~= views(prev_parts).push(prev_cur).update(
                    views(prev_parts).len() as int,
                    prev_cur.push(ch),
                ));
            }
        }
        i += 1;
    }
    proof {
        assert(s@.take(s@.len() as int) =~= s@);
    }
    let ghost before = parts@;
    parts.push(cur);
    proof {
        assert(views(parts@) =~= views(before).push(cur@));
    }
    parts
}

/// The relative path a coordinate names, with `sep` between directories:
/// group segments, artifact, version, then `artifact-version[-classifier].ext`
/// (`jar` unless `@ext` is given). `None` when the coordinate has fewer than
/// three `:`-separated parts.
pub open spec fn coordinate_path_spec(name: Seq<char>, sep: char) -> Option<Seq<char>> {
    let at = split_spec(name, '@');
    let t = split_spec(at[0], ':');
    let ext = if at.len() > 1 {
        at[1]
    } else {
        "jar"@
    };
    if t.len() < 3 {
        None
    } else {
        Some(
            swap_char(t[0], '.', sep) + seq![sep] + t[1] + seq![sep] + t[2] + seq![sep] + t[1]
                + "-"@ + t[2] + (if t.len() > 3 {
                "-"@ + t[3]
            } else {
                Seq::<char>::empty()
            }) + "."@ + ext,
        )
    }
}

/// `s` with every `a` turned into `b`.
pub fn swap_chars(s: &Vec<char>, a: char, b: char) -> (r: Vec<char>)
    ensures
        r@ == swap_char(s@, a, b),
{
    let mut r: Vec<char> = Vec::new();
    let mut i: usize = 0;
    while i < s.len()
        invariant
            i <= s@.len(),
            r@ == swap_char(s@.take(i as int), a, b),
        decreases s@.len() - i,
    {
        let ch = s[i];
        r.push(if ch == a { b } else { ch });
        proof {
            assert(swap_char(s@.take(i as int + 1), a, b) =~= swap_char(s@.take(i as int), a, b).push(
                if ch == a { b } else { ch },
            ));
        }
        i += 1;
    }
    proof {
        assert(s@.take(s@.len() as int) =~= s@);
    }
    r
}

/// The relative path named by coordinate `name`, directories joined by `sep`.
pub fn coordinate_path(name: &str, sep: char) -> (r: Result<String, LaunchError>)
    ensures
        coordinate_path_spec(name@, sep) is None ==> r == Err::<String, LaunchError>(
            LaunchError::MalformedManifest,
        ),
        coordinate_path_spec(name@, sep) matches Some(p) ==> r is Ok && r->Ok_0@ == p,
{
    let cs = chars_of(name);
    let at = split_chars(&cs, '@');
    let t = split_chars(&at[0], ':');
    proof {
        assert(views(at@)[0] == at@[0]@);
        assert(t@.len() >= 3 ==> views(t@)[0] == t@[0]@ && views(t@)[1] == t@[1]@ && views(t@)[2] == t@[2]@);
        assert(t@.len() > 3 ==> views(t@)[3] == t@[3]@);
        assert(at@.len() > 1 ==> views(at@)[1] == at@[1]@);
    }
    if t.len() < 3 {
        return Err(LaunchError::MalformedManifest);
    }
    let mut out = swap_chars(&t[0], '.', sep);
    out.push(sep);
    push_chars(&mut out, &t[1]);
    out.push(sep);
    push_chars(&mut out, &t[2]);
    out.push(sep);
    push_chars(&mut out, &t[1]);
    push_str(&mut out, "-");
    push_chars(&mut out, &t[2]);
    let ghost mid = out@;
    if t.len() > 3 {
        push_str(&mut out, "-");
        push_chars(&mut out, &t[3]);
    }
    let ghost tail = out@;
    push_str(&mut out, ".");
    if at.len() > 1 {
        push_chars(&mut out, &at[1]);
    } else {
        push_str(&mut out, "jar");
    }
    proof {
        let ext = if at@.len() > 1 { at@[1]@ } else { "jar"@ };
        let cls = if t@.len() > 3 { "-"@ + t@[3]@ } else { Seq::<char>::empty() };
        assert(tail =~= mid + cls);
        assert(out@ =~= mid + cls + "."@ + ext);
        assert(out@ =~= coordinate_path_spec(name@, sep)->Some_0);
    }
    Ok(string_of(&out))
}

/// Full path of a library under `libraries_path`: the root, `sep`, then the
/// coordinate's relative path.
pub fn library_name_to_path(libraries_path: &str, name: &str, sep: char) -> (r: Result<String, LaunchError>)
    ensures
        coordinate_path_spec(name@, sep) is None ==> r == Err::<String, LaunchError>(
            LaunchError::MalformedManifest,
        ),
        coordinate_path_spec(name@, sep) matches Some(p) ==> r is Ok && r->Ok_0@ == libraries_path@
            + seq![sep] + p,
{
    let rel = coordinate_path(name, sep)?;
    let mut out = chars_of(libraries_path);
    out.push(sep);
    let rc = chars_of(rel.as_str());
    push_chars(&mut out, &rc);
    Ok(string_of(&out))
}

} // verus!
