//! Model-catalog helpers: reading a model id out of the several URL shapes
//! users paste, laying out the download destination, and showing sizes in
//! human units.  The catalog HTTP calls themselves live outside this crate.

use vstd::prelude::*;

verus! {

/// Information about a single GGUF file offered by a model repository.
#[derive(Debug, Clone)]
pub struct HfFileInfo {
    pub filename: String,
    pub path: String,
    pub size: u64,
    pub size_formatted: String,
    pub quantization: Option<String>,
    pub commit_date: Option<String>,
}

/// Model information from the catalog API.
#[derive(Debug, Clone)]
pub struct ModelCardInfo {
    pub id: String,
    pub name: Option<String>,
    pub description: Option<String>,
    pub license: String,
    pub tags: Vec<String>,
    pub downloads: Option<u64>,
    pub likes: Option<u64>,
}

/// The number of whole units a byte count is shown in: the largest of
/// B, KB, MB, GB, TB that fits.
pub open spec fn spec_unit_index(bytes: u64) -> int {
    if bytes >= 0x10000000000 {
        4
    } else if bytes >= 0x40000000 {
        3
    } else if bytes >= 0x100000 {
        2
    } else if bytes >= 1024 {
        1
    } else {
        0
    }
}

pub open spec fn spec_unit_divisor(k: int) -> int {
    if k == 4 {
        0x10000000000
    } else if k == 3 {
        0x40000000
    } else if k == 2 {
        0x100000
    } else {
        1024
    }
}

pub open spec fn spec_unit_name(k: int) -> Seq<char> {
    if k == 4 {
        " TB"@
    } else if k == 3 {
        " GB"@
    } else if k == 2 {
        " MB"@
    } else if k == 1 {
        " KB"@
    } else {
        " B"@
    }
}

/// Tenths of a unit, rounded to nearest (half away from zero).
pub open spec fn spec_size_tenths(bytes: u64, k: int) -> int {
    let p = spec_unit_divisor(k);
    bytes * 10 / p + (if (bytes * 10 % p) * 2 >= p {
        1int
    } else {
        0int
    })
}

/// A byte count in human units: whole bytes below 1 KB, otherwise the
/// scaled size with one decimal digit.
pub open spec fn spec_format_bytes(bytes: u64) -> Seq<char> {
    let k = spec_unit_index(bytes);
    if k == 0 {
        crate::text::dec_digits(bytes as nat) + " B"@
    } else {
        let t = spec_size_tenths(bytes, k);
        crate::text::dec_digits((t / 10) as nat) + "."@ + seq![crate::text::digit_char(t % 10)]
            + spec_unit_name(k)
    }
}

/// Formats a byte count for humans.
pub fn format_bytes(bytes: u64) -> (r: String)
    ensures
        r@ == spec_format_bytes(bytes),
{
    if bytes < 1024 {
        let mut r = crate::text::u64_to_dec_string(bytes);
        r.append(" B");
        proof {
            assert(r@ =~= crate::text::dec_digits(bytes as nat) + " B"@);
        }
        return r;
    }
    let k: u32 = if bytes >= 0x10000000000 {
        4
    } else if bytes >= 0x40000000 {
        3
    } else if bytes >= 0x100000 {
        2
    } else {
        1
    };
    let p: u64 = if k == 4 {
        0x10000000000
    } else if k == 3 {
        0x40000000
    } else if k == 2 {
        0x100000
    } else {
        1024
    };
    let scaled: u128 = (bytes as u128) * 10;
    let tenths: u128 = scaled / (p as u128) + (if (scaled % (p as u128)) * 2 >= (p as u128) {
        1
    } else {
        0
    });
    proof {
        assert(tenths == spec_size_tenths(bytes, k as int));
        assert(tenths < 0x100000000000000) by {
            vstd::arithmetic::div_mod::lemma_div_is_ordered(
                bytes as int * 10,
                0xffffffffffffffffint * 10,
                p as int,
            );
        }
    }
    let whole: u64 = (tenths / 10) as u64;
    let frac: u8 = (tenths % 10) as u8;
    let mut r = crate::text::u64_to_dec_string(whole);
    proof {
        reveal_strlit(".");
    }
    crate::text::push_char(&mut r, '.');
    crate::text::push_char(&mut r, (48 + frac) as char);
    let unit: &str = if k == 4 {
        " TB"
    } else if k == 3 {
        " GB"
    } else if k == 2 {
        " MB"
    } else {
        " KB"
    };
    r.append(unit);
    proof {
        let t = spec_size_tenths(bytes, k as int);
        assert(r@ =~= crate::text::dec_digits((t / 10) as nat) + "."@ + seq![
            crate::text::digit_char(t % 10),
        ] + spec_unit_name(k as int));
    }
    r
}

/// The default destination for a model: `base/models/author/model` when the
/// id carries an author, else `base/models/id`.
pub open spec fn spec_destination_path(base: Seq<char>, model_id: Seq<char>) -> Seq<char> {
    if crate::paths::contains_char(model_id, '/') {
        let author = crate::text::take_until_char(model_id, '/');
        let rest = model_id.skip(author.len() as int + 1);
        let model = crate::text::take_until_char(rest, '/');
        base + "/models/"@ + author + "/"@ + model
    } else {
        base + "/models/"@ + model_id
    }
}

/// Builds the default destination path for a model download.
pub fn build_destination_path(base_dir: &str, model_id: &str) -> (r: String)
    ensures
        r@ == spec_destination_path(base_dir@, model_id@),
{
    let mv = crate::text::to_char_vec(model_id);
    if crate::paths::contains_char_exec(&mv, '/') {
        let author = crate::text::take_until_char_exec(&mv, '/');
        proof {
            crate::text::lemma_find_char_props(model_id@, '/', 0);
            let a = crate::text::take_until_char(model_id@, '/');
            assert(a.len() < model_id@.len());
        }
        let mn: usize = mv.len();
        let rest = crate::text::subvec(&mv, author.len() + 1, mn);
        proof {
            let a = crate::text::take_until_char(model_id@, '/');
            assert(rest@ =~= model_id@.skip(a.len() as int + 1));
        }
        let model = crate::text::take_until_char_exec(&rest, '/');
        let mut r = base_dir.to_owned();
        r.append("/models/");
        let author_s = crate::text::string_of_chars(&author);
        r.append(author_s.as_str());
        r.append("/");
        let model_s = crate::text::string_of_chars(&model);
        r.append(model_s.as_str());
        proof {
            assert(r@ =~= spec_destination_path(base_dir@, model_id@));
        }
        r
    } else {
        let mut r = base_dir.to_owned();
        r.append("/models/");
        r.append(model_id);
        proof {
            assert(r@ =~= spec_destination_path(base_dir@, model_id@));
        }
        r
    }
}


/// A character allowed in a bare `author/model` id.
pub open spec fn spec_id_word_char(c: char) -> bool {
    ('a' <= c && c <= 'z') || ('A' <= c && c <= 'Z') || ('0' <= c && c <= '9') || c == '_' || c
        == '-'
}

/// A bare catalog id: word characters, one slash, word characters.
pub open spec fn spec_plain_model_id(s: Seq<char>) -> bool {
    match crate::text::find_char_from(s, '/', 0) {
        Some(k) => 1 <= k && k + 1 < s.len() && forall|m: int|
            0 <= m < s.len() && m != k ==> spec_id_word_char(#[trigger] s[m]),
        None => false,
    }
}

/// The `author/model` segments right after position `pos + 15` (past a
/// `huggingface.co/` marker): both must be non-empty.
pub open spec fn spec_capture_at(t: Seq<char>, pos: int) -> Option<Seq<char>> {
    let rest = t.skip(pos + 15);
    let author = crate::text::take_until_char(rest, '/');
    if 0 < author.len() && author.len() < rest.len() {
        let model = crate::text::take_until_char(rest.skip(author.len() as int + 1), '/');
        if model.len() > 0 {
            Some(author + "/"@ + model)
        } else {
            None
        }
    } else {
        None
    }
}

/// The first `huggingface.co/` marker at or after `i` that is followed by
/// an `author/model` pair, and that pair.
pub open spec fn spec_hf_capture_from(t: Seq<char>, i: int) -> Option<Seq<char>>
    decreases t.len() - i + 1,
{
    if i < 0 || i + 15 > t.len() {
        None
    } else if crate::text::match_at(t, "huggingface.co/"@, i) && (spec_capture_at(t, i) is Some) {
        spec_capture_at(t, i)
    } else {
        spec_hf_capture_from(t, i + 1)
    }
}

fn try_capture_at(tv: &Vec<char>, i: usize) -> (r: Option<String>)
    requires
        i + 15 <= tv@.len(),
    ensures
        match r {
            Some(id) => spec_capture_at(tv@, i as int) == Some(id@),
            None => spec_capture_at(tv@, i as int) is None,
        },
{
    let n: usize = tv.len();
    let rest = crate::text::subvec(tv, i + 15, n);
    proof {
        assert(rest@ =~= tv@.skip(i + 15));
    }
    let author = crate::text::take_until_char_exec(&rest, '/');
    if author.len() > 0 && author.len() < rest.len() {
        let after = crate::text::subvec(&rest, author.len() + 1, rest.len());
        proof {
            assert(after@ =~= rest@.skip(author@.len() as int + 1));
        }
        let model = crate::text::take_until_char_exec(&after, '/');
        if model.len() > 0 {
            let mut id = crate::text::string_of_chars(&author);
            id.append("/");
            let model_s = crate::text::string_of_chars(&model);
            id.append(model_s.as_str());
            proof {
                assert(id@ =~= author@ + "/"@ + model@);
            }
            Some(id)
        } else {
            None
        }
    } else {
        None
    }
}

fn is_plain_model_id_exec(v: &Vec<char>) -> (r: bool)
    ensures
        r == spec_plain_model_id(v@),
{
    proof {
        crate::text::lemma_find_char_props(v@, '/', 0);
    }
    let n: usize = v.len();
    let mut slash: usize = 0;
    while slash < n && v[slash] != '/'
        invariant
            n == v@.len(),
            slash <= n,
            forall|m: int| 0 <= m < slash ==> v@[m] != '/',
        decreases n - slash,
    {
        slash = slash + 1;
    }
    if slash >= n {
        proof {
            crate::text::lemma_find_char_none(v@, '/', 0);
        }
        return false;
    }
    proof {
        crate::text::lemma_find_char_found(v@, '/', 0, slash as int);
    }
    if !(slash >= 1 && slash + 1 < n) {
        return false;
    }
    let mut m: usize = 0;
    while m < n
        invariant
            n == v@.len(),
            m <= n,
            1 <= slash && slash + 1 < n,
            crate::text::find_char_from(v@, '/', 0) == Some(slash as int),
            forall|k: int| 0 <= k < m && k != slash ==> spec_id_word_char(#[trigger] v@[k]),
        decreases n - m,
    {
        if m != slash {
            let c = v[m];
            let word = ('a' <= c && c <= 'z') || ('A' <= c && c <= 'Z') || ('0' <= c && c <= '9')
                || c == '_' || c == '-';
            if !word {
                proof {
                    assert(!spec_id_word_char(v@[m as int]));
                }
                return false;
            }
        }
        m = m + 1;
    }
    true
}

/// Reads the catalog model id (`author/model`) out of the several shapes
/// users paste: a full URL, a URL without its scheme, a direct file URL, or
/// the bare id itself.
pub fn parse_model_id(input: &str) -> (r: Result<String, String>)
    ensures
        match r {
            Ok(id) => {
                let t = crate::text::trim_ws(input@);
                if spec_hf_capture_from(t, 0) is Some {
                    spec_hf_capture_from(t, 0) == Some(id@)
                } else {
                    spec_plain_model_id(t) && id@ == t
                }
            },
            Err(m) => {
                let t = crate::text::trim_ws(input@);
                &&& (spec_hf_capture_from(t, 0) is None)
                &&& !spec_plain_model_id(t)
                &&& m@
                    == "Invalid URL format. Expected: https://huggingface.co/author/model or author/model"@
            },
        },
{
    let iv = crate::text::to_char_vec(input);
    let tv = crate::text::trim_ws_exec(&iv);
    let pat = crate::text::to_char_vec("huggingface.co/");
    proof {
        reveal_strlit("huggingface.co/");
    }
    let ghost t = crate::text::trim_ws(input@);
    let n: usize = tv.len();
    if n >= 15 {
        let last: usize = n - 15;
        let mut i: usize = 0;
        while i <= last
            invariant
                t == tv@,
                t == crate::text::trim_ws(input@),
                n == tv@.len(),
                n >= 15,
                last == n - 15,
                pat@ == "huggingface.co/"@,
                pat@.len() == 15,
                i <= last + 1,
                spec_hf_capture_from(t, 0) == spec_hf_capture_from(t, i as int),
            decreases last - i + 1,
        {
            if crate::text::match_at_exec(&tv, &pat, i) {
                match try_capture_at(&tv, i) {
                    Some(id) => {
                        proof {
                            assert(spec_capture_at(t, i as int) == Some(id@));
                            assert(spec_hf_capture_from(t, i as int) == spec_capture_at(
                                t,
                                i as int,
                            ));
                        }
                        return Ok(id);
                    },
                    None => {},
                }
            }
            i = i + 1;
        }
    }
    if is_plain_model_id_exec(&tv) {
        Ok(crate::text::string_of_chars(&tv))
    } else {
        Err(
            "Invalid URL format. Expected: https://huggingface.co/author/model or author/model".to_owned(),
        )
    }
}

} // verus!
