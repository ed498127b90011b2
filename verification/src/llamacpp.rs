//! Records of the model-server release catalog, and recognising which
//! compute backend a release asset targets.  Fetching and caching the
//! releases happens outside this crate.

use vstd::prelude::*;
use crate::text::contains_seq;
use crate::text::lower_seq;

verus! {

#[derive(Debug, Clone)]
pub struct LlamaCppRelease {
    pub id: u64,
    pub name: Option<String>,
    pub tag_name: String,
    pub published_at: String,
    pub body: Option<String>,
    pub assets: Vec<LlamaCppAsset>,
    pub draft: bool,
    pub prerelease: bool,
    pub html_url: String,
    pub tarball_url: String,
    pub zipball_url: String,
}

#[derive(Debug, Clone)]
pub struct LlamaCppAsset {
    pub id: u64,
    pub name: String,
    pub download_url: String,
    pub size: u64,
    pub content_type: Option<String>,
    pub download_count: Option<u64>,
    pub created_at: Option<String>,
    pub updated_at: Option<String>,
}

#[derive(Debug, Clone)]
pub struct LlamaCppAssetFrontend {
    pub id: u64,
    pub name: String,
    pub download_url: String,
    pub size: u64,
    pub content_type: Option<String>,
    pub download_count: Option<u64>,
    pub created_at: Option<String>,
    pub updated_at: Option<String>,
}

#[derive(Debug, Clone)]
pub struct CommitInfo {
    pub sha: String,
    pub message: String,
    pub author: String,
    pub date: String,
    pub html_url: String,
}

#[derive(Debug, Clone)]
pub struct LlamaCppReleaseFrontend {
    pub id: u64,
    pub name: Option<String>,
    pub tag_name: String,
    pub published_at: String,
    pub body: Option<String>,
    pub formatted_body: Option<String>,
    pub commit_info: Option<CommitInfo>,
    pub assets: Vec<LlamaCppAssetFrontend>,
    pub draft: bool,
    pub prerelease: bool,
    pub html_url: String,
    pub tarball_url: String,
    pub zipball_url: String,
}

impl From<LlamaCppAsset> for LlamaCppAssetFrontend {
    fn from(asset: LlamaCppAsset) -> (r: Self) {
        LlamaCppAssetFrontend {
            id: asset.id,
            name: asset.name,
            download_url: asset.download_url,
            size: asset.size,
            content_type: asset.content_type,
            download_count: asset.download_count,
            created_at: asset.created_at,
            updated_at: asset.updated_at,
        }
    }
}

impl vstd::std_specs::convert::FromSpecImpl<LlamaCppAsset> for LlamaCppAssetFrontend {
    open spec fn obeys_from_spec() -> bool {
        true
    }

    open spec fn from_spec(asset: LlamaCppAsset) -> Self {
        LlamaCppAssetFrontend {
            id: asset.id,
            name: asset.name,
            download_url: asset.download_url,
            size: asset.size,
            content_type: asset.content_type,
            download_count: asset.download_count,
            created_at: asset.created_at,
            updated_at: asset.updated_at,
        }
    }
}

/// The compute backend an asset name advertises: the first of the known
/// markers it carries, with plain processor builds as the default.
pub open spec fn spec_detect_backend(name: Seq<char>) -> Seq<char> {
    let lower = lower_seq(name);
    if contains_seq(lower, "cuda"@) || contains_seq(lower, "cudart"@) {
        "cuda"@
    } else if contains_seq(lower, "rocm"@) || contains_seq(lower, "hip"@) {
        "rocm"@
    } else if contains_seq(lower, "vulkan"@) {
        "vulkan"@
    } else if contains_seq(lower, "opencl"@) {
        "opencl"@
    } else if contains_seq(lower, "metal"@) {
        "metal"@
    } else {
        "cpu"@
    }
}

/// Detects the backend type from a release asset name.
pub fn detect_backend_type(asset_name: &str) -> (r: String)
    ensures
        r@ == spec_detect_backend(asset_name@),
{
    let lower = crate::text::lower_str(asset_name);
    let l = lower.as_str();
    if crate::text::contains_str(l, "cuda") || crate::text::contains_str(l, "cudart") {
        "cuda".to_owned()
    } else if crate::text::contains_str(l, "rocm") || crate::text::contains_str(l, "hip") {
        "rocm".to_owned()
    } else if crate::text::contains_str(l, "vulkan") {
        "vulkan".to_owned()
    } else if crate::text::contains_str(l, "opencl") {
        "opencl".to_owned()
    } else if crate::text::contains_str(l, "metal") {
        "metal".to_owned()
    } else {
        "cpu".to_owned()
    }
}


/// The pieces of `s` between newlines, kept verbatim (empties included);
/// `cur` is the piece being accumulated.  One piece always follows the last
/// newline, even when it is empty.
pub open spec fn spec_split_keep(s: Seq<char>, i: int, cur: Seq<char>) -> Seq<Seq<char>>
    decreases s.len() - i + 1,
{
    if i < 0 || i >= s.len() {
        seq![cur]
    } else if s[i] == '\n' {
        seq![cur] + spec_split_keep(s, i + 1, Seq::empty())
    } else {
        spec_split_keep(s, i + 1, cur.push(s[i]))
    }
}

/// One carriage return at a line's end belongs to the line ending, not the
/// line.
pub open spec fn spec_strip_cr(p: Seq<char>) -> Seq<char> {
    if p.len() > 0 && p.last() == '\r' {
        p.drop_last()
    } else {
        p
    }
}

/// The lines of a text: split on newlines, carriage returns stripped, and
/// no phantom line after a final newline.
pub open spec fn spec_text_lines(s: Seq<char>) -> Seq<Seq<char>> {
    if s.len() == 0 {
        Seq::empty()
    } else {
        let pieces = spec_split_keep(s, 0, Seq::empty());
        let kept = if s.last() == '\n' {
            pieces.drop_last()
        } else {
            pieces
        };
        kept.map_values(|p: Seq<char>| spec_strip_cr(p))
    }
}

/// How many copies of `c` open the text.
pub open spec fn spec_count_leading(s: Seq<char>, c: char) -> int
    decreases s.len(),
{
    if s.len() > 0 && s.first() == c {
        1 + spec_count_leading(s.drop_first(), c)
    } else {
        0
    }
}

/// `s` with every leading list marker (`-`, `*` or a space) removed.
pub open spec fn spec_trim_leading_markers(s: Seq<char>) -> Seq<char>
    decreases s.len(),
{
    if s.len() > 0 && (s.first() == '-' || s.first() == '*' || s.first() == ' ') {
        spec_trim_leading_markers(s.drop_first())
    } else {
        s
    }
}

/// `s` with every leading copy of the (non-empty) prefix `p` removed.
pub open spec fn spec_trim_prefix_all(s: Seq<char>, p: Seq<char>) -> Seq<char>
    decreases s.len(),
{
    if p.len() > 0 && crate::text::is_prefix(s, p) {
        spec_trim_prefix_all(s.skip(p.len() as int), p)
    } else {
        s
    }
}

/// `s` with every trailing copy of the (non-empty) suffix `p` removed.
pub open spec fn spec_trim_suffix_all(s: Seq<char>, p: Seq<char>) -> Seq<char>
    decreases s.len(),
{
    if p.len() > 0 && crate::text::is_suffix(s, p) && s.len() >= p.len() {
        spec_trim_suffix_all(s.take(s.len() - p.len()), p)
    } else {
        s
    }
}

/// One release-note line rendered as HTML: headings, list items, code and
/// plain paragraphs, with blank lines becoming breaks.
pub open spec fn spec_release_line_html(line: Seq<char>) -> Seq<char> {
    let t = crate::text::trim_ws(line);
    if t.len() > 0 && t.first() == '#' {
        let level = spec_count_leading(t, '#');
        let text = crate::text::trim_ws(crate::text::trim_leading(t, '#'));
        "<h"@ + crate::text::dec_digits(level as nat) + ">"@ + text + "</h"@
            + crate::text::dec_digits(level as nat) + ">"@
    } else if t.len() > 0 && (t.first() == '-' || t.first() == '*') {
        let text = crate::text::trim_ws(spec_trim_leading_markers(t));
        "<li>"@ + text + "</li>"@
    } else if crate::text::is_prefix(t, "```"@) {
        "<pre><code>"@ + spec_trim_suffix_all(spec_trim_prefix_all(t, "```"@), "```"@)
            + "</code></pre>"@
    } else if t.len() > 0 && t.first() == '`' && t.last() == '`' {
        "<code>"@ + crate::text::trim_trailing(crate::text::trim_leading(t, '`'), '`') + "</code>"@
    } else if t.len() > 0 {
        "<p>"@ + t + "</p>"@
    } else {
        "<br>"@
    }
}

/// The rendered lines joined on newlines; `acc` carries what is joined.
pub open spec fn spec_join_html_lines(parts: Seq<Seq<char>>, i: int, acc: Seq<char>) -> Seq<char>
    decreases parts.len() - i + 1,
{
    if i < 0 || i >= parts.len() {
        acc
    } else if i == 0 {
        spec_join_html_lines(parts, 1, parts[0])
    } else {
        spec_join_html_lines(parts, i + 1, acc.push('\n') + parts[i])
    }
}

/// A release body rendered for display: nothing for a blank body, else its
/// lines rendered one by one.
pub open spec fn spec_format_release_body(text: Seq<char>) -> Option<Seq<char>> {
    if crate::text::trim_ws(text).len() == 0 {
        None
    } else {
        Some(
            spec_join_html_lines(
                spec_text_lines(text).map_values(|l: Seq<char>| spec_release_line_html(l)),
                0,
                Seq::empty(),
            ),
        )
    }
}


fn strip_cr_exec(p: &str) -> (r: String)
    ensures
        r@ == spec_strip_cr(p@),
{
    let v = crate::text::to_char_vec(p);
    let n: usize = v.len();
    if n > 0 && v[n - 1] == '\r' {
        let cut = crate::text::subvec(&v, 0, n - 1);
        proof {
            assert(cut@ =~= p@.drop_last());
        }
        crate::text::string_of_chars(&cut)
    } else {
        p.to_owned()
    }
}

/// Splits a text into its lines.
fn split_text_lines(text: &str) -> (r: Vec<String>)
    ensures
        r.deep_view() == spec_text_lines(text@),
{
    let n: usize = text.unicode_len();
    if n == 0 {
        return Vec::new();
    }
    let mut raw: Vec<String> = Vec::new();
    let mut cur = String::new();
    let mut i: usize = 0;
    while i < n
        invariant
            n == text@.len(),
            i <= n,
            spec_split_keep(text@, 0, Seq::empty()) == raw.deep_view() + spec_split_keep(
                text@,
                i as int,
                cur@,
            ),
        decreases n - i,
    {
        let ghost pre_raw = raw.deep_view();
        let ghost pre_cur = cur@;
        let c = text.get_char(i);
        if c == '\n' {
            raw.push(cur);
            cur = String::new();
            proof {
                assert(raw.deep_view() =~= pre_raw.push(pre_cur));
                assert(pre_raw + (seq![pre_cur] + spec_split_keep(text@, i + 1, Seq::empty()))
                    =~= raw.deep_view() + spec_split_keep(text@, i + 1, Seq::empty()));
            }
        } else {
            crate::text::push_char(&mut cur, c);
        }
        i = i + 1;
    }
    let ghost pre_raw = raw.deep_view();
    let ghost pre_cur = cur@;
    raw.push(cur);
    proof {
        assert(raw.deep_view() =~= pre_raw.push(pre_cur));
        assert(pre_raw + seq![pre_cur] =~= raw.deep_view());
        assert(raw.deep_view() == spec_split_keep(text@, 0, Seq::empty()));
    }
    if text.get_char(n - 1) == '\n' {
        let ghost before_pop = raw.deep_view();
        raw.pop();
        proof {
            assert(raw.deep_view() =~= before_pop.drop_last());
        }
    }
    let ghost kept = raw.deep_view();
    let mut out: Vec<String> = Vec::new();
    let mut j: usize = 0;
    while j < raw.len()
        invariant
            kept == raw.deep_view(),
            kept.len() == raw@.len(),
            j <= raw@.len(),
            out.deep_view().len() == j,
            forall|k: int|
                0 <= k < j ==> out.deep_view()[k] == spec_strip_cr(#[trigger] kept[k]),
        decreases raw@.len() - j,
    {
        let stripped = strip_cr_exec(raw[j].as_str());
        proof {
            assert(raw@[j as int]@ == kept[j as int]);
        }
        out.push(stripped);
        j = j + 1;
    }
    proof {
        assert(out.deep_view() =~= kept.map_values(|p: Seq<char>| spec_strip_cr(p)));
    }
    out
}

fn count_leading_exec(v: &Vec<char>, c: char) -> (r: usize)
    ensures
        r == spec_count_leading(v@, c),
{
    let n: usize = v.len();
    proof {
        assert(v@.skip(0) =~= v@);
    }
    let mut i: usize = 0;
    while i < n && v[i] == c
        invariant
            n == v@.len(),
            i <= n,
            spec_count_leading(v@, c) == i + spec_count_leading(v@.skip(i as int), c),
        decreases n - i,
    {
        proof {
            assert(v@.skip(i as int).drop_first() =~= v@.skip(i + 1int));
        }
        i = i + 1;
    }
    proof {
        let rest = v@.skip(i as int);
        if i < n {
            assert(rest.first() != c);
        }
        assert(spec_count_leading(rest, c) == 0);
    }
    i
}

fn trim_leading_markers_exec(v: &Vec<char>) -> (r: Vec<char>)
    ensures
        r@ == spec_trim_leading_markers(v@),
{
    let n: usize = v.len();
    proof {
        assert(v@.skip(0) =~= v@);
    }
    let mut i: usize = 0;
    while i < n && (v[i] == '-' || v[i] == '*' || v[i] == ' ')
        invariant
            n == v@.len(),
            i <= n,
            spec_trim_leading_markers(v@) == spec_trim_leading_markers(v@.skip(i as int)),
        decreases n - i,
    {
        proof {
            assert(v@.skip(i as int).drop_first() =~= v@.skip(i + 1int));
        }
        i = i + 1;
    }
    proof {
        let rest = v@.skip(i as int);
        if i < n {
            assert(rest.first() == v@[i as int]);
        }
        assert(spec_trim_leading_markers(rest) == rest);
    }
    crate::text::subvec(v, i, n)
}

fn trim_prefix_all_exec(v: &Vec<char>, p: &Vec<char>) -> (r: Vec<char>)
    requires
        p@.len() > 0,
    ensures
        r@ == spec_trim_prefix_all(v@, p@),
{
    let mut cur = crate::text::subvec(v, 0, v.len());
    proof {
        assert(cur@ =~= v@);
    }
    loop
        invariant
            p@.len() > 0,
            spec_trim_prefix_all(v@, p@) == spec_trim_prefix_all(cur@, p@),
        decreases cur@.len(),
    {
        let cn: usize = cur.len();
        let pn: usize = p.len();
        if cn < pn || !crate::text::match_at_exec(&cur, p, 0) {
            proof {
                if cn < pn {
                    assert(!crate::text::is_prefix(cur@, p@));
                }
                assert(spec_trim_prefix_all(cur@, p@) == cur@);
            }
            return cur;
        }
        let next = crate::text::subvec(&cur, pn, cn);
        proof {
            assert(next@ =~= cur@.skip(p@.len() as int));
        }
        cur = next;
    }
}

fn trim_suffix_all_exec(v: &Vec<char>, p: &Vec<char>) -> (r: Vec<char>)
    requires
        p@.len() > 0,
    ensures
        r@ == spec_trim_suffix_all(v@, p@),
{
    let mut cur = crate::text::subvec(v, 0, v.len());
    proof {
        assert(cur@ =~= v@);
    }
    loop
        invariant
            p@.len() > 0,
            spec_trim_suffix_all(v@, p@) == spec_trim_suffix_all(cur@, p@),
        decreases cur@.len(),
    {
        let cn: usize = cur.len();
        let pn: usize = p.len();
        if cn < pn || !crate::text::match_at_exec(&cur, p, cn - pn) {
            proof {
                if cn < pn {
                    assert(!crate::text::is_suffix(cur@, p@));
                }
                assert(spec_trim_suffix_all(cur@, p@) == cur@);
            }
            return cur;
        }
        let next = crate::text::subvec(&cur, 0, cn - pn);
        proof {
            assert(next@ =~= cur@.take(cur@.len() - p@.len()));
        }
        cur = next;
    }
}

/// Renders one release-note line as HTML.
fn release_line_html(line: &str) -> (r: String)
    ensures
        r@ == spec_release_line_html(line@),
{
    let lv = crate::text::to_char_vec(line);
    let tv = crate::text::trim_ws_exec(&lv);
    let n: usize = tv.len();
    let t = crate::text::string_of_chars(&tv);
    proof {
        reveal_strlit("```");
    }
    if n > 0 && tv[0] == '#' {
        let level = count_leading_exec(&tv, '#');
        let after = crate::text::trim_leading_char(t.as_str(), '#');
        let av = crate::text::to_char_vec(after);
        let text_v = crate::text::trim_ws_exec(&av);
        let text = crate::text::string_of_chars(&text_v);
        let digits = crate::text::u64_to_dec_string(level as u64);
        let mut r = "<h".to_owned();
        r.append(digits.as_str());
        r.append(">");
        r.append(text.as_str());
        r.append("</h");
        r.append(digits.as_str());
        r.append(">");
        proof {
            assert(r@ =~= spec_release_line_html(line@));
        }
        r
    } else if n > 0 && (tv[0] == '-' || tv[0] == '*') {
        let inner = trim_leading_markers_exec(&tv);
        let text_v = crate::text::trim_ws_exec(&inner);
        let text = crate::text::string_of_chars(&text_v);
        let mut r = "<li>".to_owned();
        r.append(text.as_str());
        r.append("</li>");
        proof {
            assert(r@ =~= spec_release_line_html(line@));
        }
        r
    } else if n >= 3 && crate::text::match_at_exec(&tv, &crate::text::to_char_vec("```"), 0) {
        let ticks = crate::text::to_char_vec("```");
        let inner = trim_suffix_all_exec(&trim_prefix_all_exec(&tv, &ticks), &ticks);
        let inner_s = crate::text::string_of_chars(&inner);
        let mut r = "<pre><code>".to_owned();
        r.append(inner_s.as_str());
        r.append("</code></pre>");
        proof {
            assert(r@ =~= spec_release_line_html(line@));
        }
        r
    } else if n > 0 && tv[0] == '`' && tv[n - 1] == '`' {
        let inner = crate::text::trim_trailing_char(
            crate::text::trim_leading_char(t.as_str(), '`'),
            '`',
        );
        let mut r = "<code>".to_owned();
        r.append(inner);
        r.append("</code>");
        proof {
            assert(r@ =~= spec_release_line_html(line@));
        }
        r
    } else if n > 0 {
        let mut r = "<p>".to_owned();
        r.append(t.as_str());
        r.append("</p>");
        proof {
            if crate::text::is_prefix(tv@, "```"@) {
                assert(tv@.len() >= 3);
            }
            assert(r@ =~= spec_release_line_html(line@));
        }
        r
    } else {
        proof {
            if crate::text::is_prefix(tv@, "```"@) {
                assert(tv@.len() >= 3);
            }
        }
        "<br>".to_owned()
    }
}

/// Renders a release body for display: `None` for a blank body.
pub fn format_release_body(body: &Option<String>) -> (r: Option<String>)
    ensures
        match body {
            Some(text) => (match spec_format_release_body(text@) {
                Some(h) => r matches Some(s) && s@ == h,
                None => r is None,
            }),
            None => r is None,
        },
{
    match body {
        Some(text) => {
            let cv = crate::text::to_char_vec(text.as_str());
            let tv = crate::text::trim_ws_exec(&cv);
            if tv.len() == 0 {
                return None;
            }
            let pieces = split_text_lines(text.as_str());
            let ghost target = spec_text_lines(text@).map_values(
                |l: Seq<char>| spec_release_line_html(l),
            );
            let mut out = String::new();
            let mut i: usize = 0;
            while i < pieces.len()
                invariant
                    pieces.deep_view() == spec_text_lines(text@),
                    target == spec_text_lines(text@).map_values(
                        |l: Seq<char>| spec_release_line_html(l),
                    ),
                    target.len() == pieces@.len(),
                    i <= pieces@.len(),
                    spec_join_html_lines(target, 0, Seq::empty()) == spec_join_html_lines(
                        target,
                        i as int,
                        out@,
                    ),
                    i == 0 ==> out@ == Seq::<char>::empty(),
                decreases pieces@.len() - i,
            {
                proof {
                    assert(pieces.deep_view()[i as int] == pieces@[i as int]@);
                    assert(target[i as int] == spec_release_line_html(pieces@[i as int]@));
                }
                let html = release_line_html(pieces[i].as_str());
                if i == 0 {
                    out = html;
                } else {
                    crate::text::push_char(&mut out, '\n');
                    out.append(html.as_str());
                }
                i = i + 1;
            }
            Some(out)
        },
        None => None,
    }
}

impl LlamaCppReleaseFrontend {
    /// The display form of a catalog release: the same fields, the body
    /// also rendered as HTML, commit details not yet fetched, and each
    /// asset in its display form.
    pub fn from_release(release: LlamaCppRelease) -> (r: LlamaCppReleaseFrontend)
        ensures
            r.id == release.id,
            r.name == release.name,
            r.tag_name == release.tag_name,
            r.published_at == release.published_at,
            r.body == release.body,
            (match release.body {
                Some(text) => (match spec_format_release_body(text@) {
                    Some(h) => r.formatted_body matches Some(s) && s@ == h,
                    None => r.formatted_body is None,
                }),
                None => r.formatted_body is None,
            }),
            r.commit_info is None,
            r.assets@.len() == release.assets@.len(),
            forall|j: int|
                0 <= j < release.assets@.len() ==> #[trigger] r.assets@[j]
                    == <LlamaCppAssetFrontend as vstd::std_specs::convert::FromSpec<
                    LlamaCppAsset,
                >>::from_spec(release.assets@[j]),
            r.draft == release.draft,
            r.prerelease == release.prerelease,
            r.html_url == release.html_url,
            r.tarball_url == release.tarball_url,
            r.zipball_url == release.zipball_url,
    {
        let body = match &release.body {
            Some(b) => Some(b.clone()),
            None => None,
        };
        let formatted_body = format_release_body(&release.body);
        let mut assets: Vec<LlamaCppAssetFrontend> = Vec::new();
        let ghost src_assets = release.assets@;
        let mut k: usize = 0;
        let mut remaining = release.assets;
        let initial_len: usize = remaining.len();
        proof {
            assert(initial_len == src_assets.len());
            assert(remaining@.skip(0) =~= src_assets);
        }
        while remaining.len() > 0
            invariant
                assets@.len() == k,
                src_assets.len() <= usize::MAX,
                k + remaining@.len() == src_assets.len(),
                remaining@ == src_assets.skip(k as int),
                forall|j: int|
                    0 <= j < k ==> #[trigger] assets@[j]
                        == <LlamaCppAssetFrontend as vstd::std_specs::convert::FromSpec<
                        LlamaCppAsset,
                    >>::from_spec(src_assets[j]),
            decreases remaining@.len(),
        {
            let asset = remaining.remove(0);
            proof {
                assert(asset == src_assets[k as int]);
                assert(remaining@ =~= src_assets.skip(k + 1int));
            }
            assets.push(LlamaCppAssetFrontend::from(asset));
            k = k + 1;
        }
        LlamaCppReleaseFrontend {
            id: release.id,
            name: release.name,
            tag_name: release.tag_name,
            published_at: release.published_at,
            body,
            formatted_body,
            commit_info: None,
            assets,
            draft: release.draft,
            prerelease: release.prerelease,
            html_url: release.html_url,
            tarball_url: release.tarball_url,
            zipball_url: release.zipball_url,
        }
    }
}


/// How long fetched releases stay fresh, in seconds; the catalog's rate
/// limit makes refetching sooner wasteful.
pub const CACHE_DURATION_SECS: i64 = 600;

/// A cache of the releases last fetched, with the unix second they arrived.
#[derive(Debug)]
pub struct ReleaseCache {
    pub entry: Option<(Vec<LlamaCppReleaseFrontend>, i64)>,
}

pub open spec fn release_cache_wf(c: ReleaseCache) -> bool {
    match c.entry {
        Some(e) => 0 <= e.1 <= crate::downloader::MAX_UNIX_SECONDS,
        None => true,
    }
}

impl ReleaseCache {
    pub fn new() -> (r: ReleaseCache)
        ensures
            r.entry is None,
            release_cache_wf(r),
    {
        ReleaseCache { entry: None }
    }

    /// Remembers freshly fetched releases with the current time.
    pub fn cache_releases(&mut self, releases: Vec<LlamaCppReleaseFrontend>, now: i64)
        requires
            0 <= now <= crate::downloader::MAX_UNIX_SECONDS,
        ensures
            final(self).entry == Some((releases, now)),
            release_cache_wf(*final(self)),
    {
        self.entry = Some((releases, now));
    }

    /// The cached releases, while they are still fresh.
    pub fn get_cached_releases(&self, now: i64) -> (r: Option<&Vec<LlamaCppReleaseFrontend>>)
        requires
            release_cache_wf(*self),
            0 <= now <= crate::downloader::MAX_UNIX_SECONDS,
        ensures
            match self.entry {
                Some(e) => if e.1 <= now < e.1 + CACHE_DURATION_SECS {
                    r == Some(&e.0)
                } else {
                    r is None
                },
                None => r is None,
            },
    {
        match &self.entry {
            Some(e) => {
                if e.1 <= now && now - e.1 < CACHE_DURATION_SECS {
                    Some(&e.0)
                } else {
                    None
                }
            },
            None => None,
        }
    }
}

} // verus!
