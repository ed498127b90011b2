//! Path handling over plain strings: relative/absolute conversion for the
//! settings file, splitting a path into segments, and recognising model
//! paths that carry a catalog id.
//!
//! Both `/` and `\` are treated as separators, so the same rules apply to
//! paths recorded on either platform.

use vstd::prelude::*;

verus! {

/// A path the filesystem resolves without a base: it starts at a root
/// separator, or carries a drive letter.
pub open spec fn is_absolute_path(p: Seq<char>) -> bool {
    (p.len() > 0 && (p[0] == '/' || p[0] == '\\')) || (p.len() >= 2 && p[1] == ':')
}

pub fn is_absolute_path_exec(p: &str) -> (r: bool)
    ensures
        r == is_absolute_path(p@),
{
    let n: usize = p.unicode_len();
    if n > 0 && (p.get_char(0) == '/' || p.get_char(0) == '\\') {
        return true;
    }
    n >= 2 && p.get_char(1) == ':'
}

pub open spec fn contains_char(s: Seq<char>, c: char) -> bool {
    exists|i: int| 0 <= i < s.len() && s[i] == c
}

pub fn contains_char_exec(v: &Vec<char>, c: char) -> (r: bool)
    ensures
        r == contains_char(v@, c),
{
    let mut i: usize = 0;
    while i < v.len()
        invariant
            i <= v@.len(),
            forall|k: int| 0 <= k < i ==> v@[k] != c,
        decreases v@.len() - i,
    {
        if v[i] == c {
            return true;
        }
        i = i + 1;
    }
    false
}

/// The separator a directory's own spelling suggests: backslash when the
/// directory uses backslashes, slash otherwise.
pub open spec fn spec_join_sep(dir: Seq<char>) -> char {
    if contains_char(dir, '\\') {
        '\\'
    } else {
        '/'
    }
}

/// A stored model path made relative to the models directory: the directory
/// prefix and one separator are stripped; a path outside the directory, or
/// an empty directory, leaves the path as it is.
pub open spec fn spec_make_path_relative(abs: Seq<char>, dir: Seq<char>) -> Seq<char> {
    if dir.len() == 0 {
        abs
    } else if abs == dir {
        Seq::empty()
    } else if abs.len() > dir.len() && crate::text::match_at(abs, dir, 0) && is_sep(
        abs[dir.len() as int],
    ) {
        abs.skip(dir.len() as int + 1)
    } else {
        abs
    }
}

/// Converts an absolute model path to a relative one for storage.
pub fn make_path_relative(absolute_path: &str, models_dir: &str) -> (r: String)
    ensures
        r@ == spec_make_path_relative(absolute_path@, models_dir@),
{
    let av = crate::text::to_char_vec(absolute_path);
    let dv = crate::text::to_char_vec(models_dir);
    let alen: usize = av.len();
    let dlen: usize = dv.len();
    if dlen == 0 {
        return absolute_path.to_owned();
    }
    if crate::text::str_eq(absolute_path, models_dir) {
        return String::new();
    }
    if alen > dlen && crate::text::match_at_exec(&av, &dv, 0) && (av[dlen] == '\\' || av[dlen]
        == '/') {
        let rest = crate::text::subvec(&av, dlen + 1, alen);
        proof {
            assert(rest@ =~= absolute_path@.skip(dlen as int + 1));
        }
        crate::text::string_of_chars(&rest)
    } else {
        absolute_path.to_owned()
    }
}

/// A stored relative model path resolved against the models directory; a
/// path that is already absolute, or an empty directory, leaves the path as
/// it is.
pub open spec fn spec_make_path_absolute(rel: Seq<char>, dir: Seq<char>) -> Seq<char> {
    if dir.len() == 0 || is_absolute_path(rel) {
        rel
    } else {
        dir.push(spec_join_sep(dir)) + rel
    }
}

/// Converts a stored relative model path back to an absolute one.
pub fn make_path_absolute(relative_path: &str, models_dir: &str) -> (r: String)
    ensures
        r@ == spec_make_path_absolute(relative_path@, models_dir@),
{
    let dv = crate::text::to_char_vec(models_dir);
    if dv.len() == 0 || is_absolute_path_exec(relative_path) {
        return relative_path.to_owned();
    }
    let sep: char = if contains_char_exec(&dv, '\\') {
        '\\'
    } else {
        '/'
    };
    let mut r = models_dir.to_owned();
    crate::text::push_char(&mut r, sep);
    r.append(relative_path);
    proof {
        assert(r@ =~= models_dir@.push(spec_join_sep(models_dir@)) + relative_path@);
    }
    r
}

pub open spec fn is_sep(c: char) -> bool {
    c == '/' || c == '\\'
}

/// The non-empty segments of a path, in order: separators split, repeated
/// separators collapse.
pub open spec fn spec_path_segments(s: Seq<char>, i: int, cur: Seq<char>) -> Seq<Seq<char>>
    decreases s.len() - i + 1,
{
    if i < 0 || i >= s.len() {
        if cur.len() > 0 {
            seq![cur]
        } else {
            Seq::empty()
        }
    } else if is_sep(s[i]) {
        if cur.len() > 0 {
            seq![cur] + spec_path_segments(s, i + 1, Seq::empty())
        } else {
            spec_path_segments(s, i + 1, Seq::empty())
        }
    } else {
        spec_path_segments(s, i + 1, cur.push(s[i]))
    }
}

/// Splits a path into its non-empty segments.
pub fn split_path_segments(path: &str) -> (r: Vec<String>)
    ensures
        r.deep_view() == spec_path_segments(path@, 0, Seq::empty()),
{
    let n: usize = path.unicode_len();
    let mut out: Vec<String> = Vec::new();
    let mut cur = String::new();
    let mut i: usize = 0;
    while i < n
        invariant
            n == path@.len(),
            i <= n,
            spec_path_segments(path@, 0, Seq::empty()) == out.deep_view() + spec_path_segments(
                path@,
                i as int,
                cur@,
            ),
        decreases n - i,
    {
        let ghost pre_out = out.deep_view();
        let ghost pre_cur = cur@;
        let c = path.get_char(i);
        if c == '/' || c == '\\' {
            if cur.as_str().unicode_len() > 0 {
                out.push(cur);
                cur = String::new();
                proof {
                    assert(out.deep_view() =~= pre_out.push(pre_cur));
                    assert(pre_out + (seq![pre_cur] + spec_path_segments(
                        path@,
                        i + 1,
                        Seq::empty(),
                    )) =~= out.deep_view() + spec_path_segments(path@, i + 1, Seq::empty()));
                }
            } else {
                proof {
                    assert(cur@ =~= Seq::<char>::empty());
                }
            }
        } else {
            crate::text::push_char(&mut cur, c);
        }
        i = i + 1;
    }
    if cur.as_str().unicode_len() > 0 {
        let ghost pre_out = out.deep_view();
        let ghost pre_cur = cur@;
        out.push(cur);
        proof {
            assert(out.deep_view() =~= pre_out.push(pre_cur));
            assert(pre_out + seq![pre_cur] =~= out.deep_view());
        }
    }
    proof {
        assert(out.deep_view() + Seq::<Seq<char>>::empty() =~= out.deep_view());
    }
    out
}

/// The last segment of a path: the name of the file it points at.  A path
/// of separators alone has none.
pub open spec fn spec_file_name(path: Seq<char>) -> Option<Seq<char>> {
    let segs = spec_path_segments(path, 0, Seq::empty());
    if segs.len() > 0 {
        Some(segs.last())
    } else {
        None
    }
}

pub fn file_name_of_path(path: &str) -> (r: Option<String>)
    ensures
        match r {
            Some(f) => spec_file_name(path@) == Some(f@),
            None => spec_file_name(path@) is None,
        },
{
    let mut segs = split_path_segments(path);
    let ghost dv = segs.deep_view();
    if segs.len() > 0 {
        let f = segs.pop().unwrap();
        proof {
            assert(dv.last() == f@);
        }
        Some(f)
    } else {
        None
    }
}

/// The words a model path must carry for a guessed catalog link.
pub open spec fn spec_model_word_hit(file: Seq<char>, model: Seq<char>) -> bool {
    let lf = crate::text::lower_seq(file);
    let lm = crate::text::lower_seq(model);
    ||| crate::text::contains_seq(lf, lm)
    ||| crate::text::contains_seq(lm, "glm"@)
    ||| crate::text::contains_seq(lm, "llama"@)
    ||| crate::text::contains_seq(lm, "mistral"@)
    ||| crate::text::contains_seq(lm, "qwen"@)
    ||| crate::text::contains_seq(lm, "phi"@)
}

/// The catalog id a model path suggests: with at least an author, a model
/// and a file segment, and a file name that looks like the model (or a
/// well-known model family), the id is `author/model`.
pub open spec fn spec_extract_hf_model_id(path: Seq<char>) -> Option<Seq<char>> {
    let segs = spec_path_segments(path, 0, Seq::empty());
    if segs.len() < 3 {
        None
    } else {
        let file = segs[segs.len() - 1];
        let model = segs[segs.len() - 2];
        let author = segs[segs.len() - 3];
        if spec_model_word_hit(file, model) {
            Some(author + "/"@ + model)
        } else {
            None
        }
    }
}

fn contains_lower(hay: &str, needle: &str) -> (r: bool)
    ensures
        r == crate::text::contains_seq(crate::text::lower_seq(hay@), needle@),
{
    let lower = crate::text::lower_str(hay);
    crate::text::contains_str(lower.as_str(), needle)
}

/// Tries to read a catalog model id (`author/model`) out of a local model
/// path laid out as `.../author/model/file.gguf`.
pub fn extract_hf_model_id_from_path(path: &str) -> (r: Option<String>)
    ensures
        match r {
            Some(id) => spec_extract_hf_model_id(path@) == Some(id@),
            None => spec_extract_hf_model_id(path@) is None,
        },
{
    let segs = split_path_segments(path);
    let ghost dv = segs.deep_view();
    if segs.len() < 3 {
        return None;
    }
    let file = &segs[segs.len() - 1];
    let model = &segs[segs.len() - 2];
    let author = &segs[segs.len() - 3];
    proof {
        assert(dv[dv.len() - 1] == file@);
        assert(dv[dv.len() - 2] == model@);
        assert(dv[dv.len() - 3] == author@);
    }
    let lower_model = crate::text::lower_str(model.as_str());
    let hit = crate::text::contains_str(
        crate::text::lower_str(file.as_str()).as_str(),
        lower_model.as_str(),
    ) || contains_lower(model.as_str(), "glm") || contains_lower(model.as_str(), "llama")
        || contains_lower(model.as_str(), "mistral") || contains_lower(model.as_str(), "qwen")
        || contains_lower(model.as_str(), "phi");
    if hit {
        let mut id = author.clone();
        id.append("/");
        id.append(model.as_str());
        proof {
            assert(id@ =~= author@ + "/"@ + model@);
        }
        Some(id)
    } else {
        None
    }
}

} // verus!
