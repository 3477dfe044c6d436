//! The application item domain: turning parsed desktop-entry text into
//! launchable candidates, stripping field codes from command lines, computing
//! the search directories, and the mode that owns the store and projection.

use vstd::prelude::*;
use vstd::string::StrSliceExecFns;
use vstd::string::StringExecFns;

use crate::index_list::IndexList;
use crate::index_list::ListChange;
use crate::menu_item_model::Application;
use crate::menu_item_model::MenuItemModel;
use crate::rank::lemma_rank_prefix_sound;
use crate::rank::rank_indices;
use crate::rank::rank_indices_spec;
use crate::strings::chars_of;
use crate::strings::lower_of;
use crate::strings::lowercase;
use crate::strings::string_from_chars;

verus! {

/// `s` with every non-overlapping occurrence of the two-character field code
/// `%tag` removed, scanning left to right.
pub open spec fn remove_marker(s: Seq<char>, tag: char) -> Seq<char>
    decreases s.len(),
{
    if s.len() < 2 {
        s
    } else if s[0] == '%' && s[1] == tag {
        remove_marker(s.skip(2), tag)
    } else {
        seq![s[0]] + remove_marker(s.skip(1), tag)
    }
}

/// `s` after removing the field codes of `tags[i..]`, one full pass each, in
/// order.
pub open spec fn strip_from(s: Seq<char>, tags: Seq<char>, i: int) -> Seq<char>
    decreases tags.len() - i,
{
    if i < 0 || i >= tags.len() {
        s
    } else {
        strip_from(remove_marker(s, tags[i]), tags, i + 1)
    }
}

/// The field-code tags that desktop entries may carry in their command lines.
pub open spec fn field_tags() -> Seq<char> {
    seq!['f', 'F', 'u', 'U', 'd', 'D', 'n', 'N', 'i', 'c', 'k', 'v', 'm']
}

/// A command line with all field codes stripped, ready to hand to a shell.
pub open spec fn stripped_exec(s: Seq<char>) -> Seq<char> {
    strip_from(s, field_tags(), 0)
}

/// One left-to-right pass removing `%tag` from a character vector.
fn remove_marker_chars(s: &Vec<char>, tag: char) -> (r: Vec<char>)
    ensures
        r@ == remove_marker(s@, tag),
{
    let mut out: Vec<char> = Vec::new();
    let mut i: usize = 0;
    proof {
        assert(s@.skip(0) =~= s@);
        assert(out@ + remove_marker(s@, tag) =~= remove_marker(s@, tag));
    }
    while i < s.len()
        invariant
            i <= s@.len(),
            remove_marker(s@, tag) == out@ + remove_marker(s@.skip(i as int), tag),
        decreases s@.len() - i,
    {
        if i + 1 < s.len() && s[i] == '%' && s[i + 1] == tag {
            proof {
                let rest = s@.skip(i as int);
                assert(rest[0] == s@[i as int]);
                assert(rest[1] == s@[i + 1]);
                assert(rest.skip(2) =~= s@.skip(i + 2));
            }
            i = i + 2;
        } else {
            let c = s[i];
            out.push(c);
            proof {
                let rest = s@.skip(i as int);
                let rest1 = s@.skip(i + 1);
                assert(rest[0] == s@[i as int]);
                if rest.len() < 2 {
                    assert(rest1 =~= Seq::<char>::empty());
                    assert(rest =~= seq![s@[i as int]] + remove_marker(rest1, tag));
                } else {
                    assert(rest[1] == s@[i + 1]);
                    assert(rest.skip(1) =~= rest1);
                }
                assert((out@.drop_last() + (seq![s@[i as int]] + remove_marker(rest1, tag))) =~= (
                out@ + remove_marker(rest1, tag)));
            }
            i = i + 1;
        }
    }
    proof {
        assert(s@.skip(s@.len() as int) =~= Seq::<char>::empty());
        assert(out@ + remove_marker(s@.skip(s@.len() as int), tag) =~= out@);
    }
    out
}

/// Strips every desktop field code (`%f`, `%u` and the rest) from a command
/// line, one pass per code, in a fixed order.
pub fn strip_placeholders(exec_line: &str) -> (r: String)
    ensures
        r@ == stripped_exec(exec_line@),
{
    let mut cur = chars_of(exec_line);
    let tags: Vec<char> = vec!['f', 'F', 'u', 'U', 'd', 'D', 'n', 'N', 'i', 'c', 'k', 'v', 'm'];
    proof {
        assert(tags@ =~= field_tags());
    }
    let mut i: usize = 0;
    while i < tags.len()
        invariant
            i <= tags@.len(),
            tags@ == field_tags(),
            stripped_exec(exec_line@) == strip_from(cur@, tags@, i as int),
        decreases tags@.len() - i,
    {
        cur = remove_marker_chars(&cur, tags[i]);
        i = i + 1;
    }
    string_from_chars(&cur)
}

/// What the desktop-entry parser yields for a given text, named here so that
/// contracts can speak of it: the default name, the command line and the
/// no-display flag of an application entry, or nothing for unparsable text or
/// an entry of another type.
pub uninterp spec fn parsed_application_of(content: Seq<char>) -> Option<
    (Seq<char>, Option<Seq<char>>, Option<bool>),
>;

/// Relies on `freedesktop_file_parser::parse`: the parse is a function of the
/// text alone; of an application entry this keeps the default name, the
/// command line and the no-display flag, and of a parse error or an entry of
/// another type it yields nothing.
#[verifier::external_body]
fn parse_application_entry(content: &str) -> (r: Option<(String, Option<String>, Option<bool>)>)
    ensures
        r.deep_view() == parsed_application_of(content@),
{
    match freedesktop_file_parser::parse(content) {
        Ok(file) => match file.entry.entry_type {
            freedesktop_file_parser::EntryType::Application(fields) => Some(
                (file.entry.name.default, fields.exec, file.entry.no_display),
            ),
            _ => None,
        },
        Err(_) => None,
    }
}

/// A parsed entry becomes a candidate exactly when it is not marked
/// no-display and its command line is present and non-empty.
pub open spec fn accepts_entry(
    name: Seq<char>,
    exec_line: Option<Seq<char>>,
    no_display: Option<bool>,
) -> bool {
    &&& no_display != Some(true)
    &&& match exec_line {
        Some(e) => e.len() > 0,
        None => false,
    }
}

/// The candidate (name, command line) that a parse result yields, if any.
pub open spec fn application_of_entry(
    parsed: Option<(Seq<char>, Option<Seq<char>>, Option<bool>)>,
) -> Option<(Seq<char>, Seq<char>)> {
    match parsed {
        Some((name, exec_line, no_display)) => match exec_line {
            Some(e) => if accepts_entry(name, exec_line, no_display) {
                Some((name, e))
            } else {
                None
            },
            None => None,
        },
        None => None,
    }
}

/// Parses one desktop-entry text and applies the no-display and empty-command
/// filters; the surviving entry carries an empty description.
pub fn application_from_desktop(content: &str) -> (r: Option<Application>)
    ensures
        match application_of_entry(parsed_application_of(content@)) {
            Some(p) => match r {
                Some(a) => a.name@ == p.0 && a.exec_line@ == p.1 && a.description@ == Seq::<
                    char,
                >::empty(),
                None => false,
            },
            None => r is None,
        },
{
    match parse_application_entry(content) {
        Some((name, exec_opt, no_display)) => {
            let hidden = match no_display {
                Some(b) => b,
                None => false,
            };
            if hidden {
                return None;
            }
            match exec_opt {
                Some(line) => {
                    if line.as_str().is_empty() {
                        None
                    } else {
                        Some(Application::new(name, String::new(), line))
                    }
                },
                None => None,
            }
        },
        None => None,
    }
}

/// The candidates that a list of desktop-entry texts yields, in order.
pub open spec fn collected_applications(contents: Seq<Seq<char>>) -> Seq<(Seq<char>, Seq<char>)>
    decreases contents.len(),
{
    if contents.len() == 0 {
        Seq::empty()
    } else {
        let rest = collected_applications(contents.drop_last());
        match application_of_entry(parsed_application_of(contents.last())) {
            Some(p) => rest.push(p),
            None => rest,
        }
    }
}

/// Parses and filters a list of desktop-entry texts into candidates.
pub fn collect_applications(contents: &Vec<String>) -> (r: Vec<Application>)
    ensures
        r@.len() == collected_applications(contents.deep_view()).len(),
        forall|k: int|
            0 <= k < r@.len() ==> (#[trigger] r@[k]).name@ == collected_applications(
                contents.deep_view(),
            )[k].0 && r@[k].exec_line@ == collected_applications(contents.deep_view())[k].1,
{
    let ghost cv = contents.deep_view();
    let mut r: Vec<Application> = Vec::new();
    let mut i: usize = 0;
    while i < contents.len()
        invariant
            cv == contents.deep_view(),
            i <= cv.len(),
            r@.len() == collected_applications(cv.take(i as int)).len(),
            forall|k: int|
                0 <= k < r@.len() ==> (#[trigger] r@[k]).name@ == collected_applications(
                    cv.take(i as int),
                )[k].0 && r@[k].exec_line@ == collected_applications(cv.take(i as int))[k].1,
        decreases cv.len() - i,
    {
        proof {
            assert(cv.take(i + 1 as int).drop_last() =~= cv.take(i as int));
            assert(cv.take(i + 1 as int).last() == cv[i as int]);
            assert(cv[i as int] == contents@[i as int]@);
        }
        match application_from_desktop(contents[i].as_str()) {
            Some(a) => {
                r.push(a);
            },
            None => {},
        }
        i = i + 1;
    }
    proof {
        assert(cv.take(cv.len() as int) =~= cv);
    }
    r
}

/// `rel` appended to directory `base` with a single separating slash, the
/// way a path join renders it.
pub open spec fn joined(base: Seq<char>, rel: Seq<char>) -> Seq<char> {
    if base.len() == 0 {
        rel
    } else if base[base.len() - 1] == '/' {
        base + rel
    } else {
        base + seq!['/'] + rel
    }
}

/// Joins a relative path onto a base directory.
pub fn join_path(base: &str, rel: &str) -> (r: String)
    ensures
        r@ == joined(base@, rel@),
{
    let n = base.unicode_len();
    if n == 0 {
        return rel.to_owned();
    }
    let last = base.get_char(n - 1);
    let mut out = base.to_owned();
    if last != '/' {
        out.append("/");
        proof {
            reveal_strlit("/");
            assert(out@ =~= base@ + seq!['/']);
        }
    }
    out.append(rel);
    proof {
        assert(out@ =~= joined(base@, rel@));
    }
    out
}

/// The colon-separated pieces of `s`: those after `start`, with the scan
/// standing at `cur`.
pub open spec fn split_from(s: Seq<char>, start: int, cur: int) -> Seq<Seq<char>>
    decreases s.len() - cur
        when 0 <= cur <= s.len()
{
    if cur >= s.len() {
        seq![s.subrange(start, s.len() as int)]
    } else if s[cur] == ':' {
        seq![s.subrange(start, cur)] + split_from(s, cur + 1, cur + 1)
    } else {
        split_from(s, start, cur + 1)
    }
}

/// The colon-separated pieces of a search-path string.
pub open spec fn split_colon(s: Seq<char>) -> Seq<Seq<char>> {
    split_from(s, 0, 0)
}

/// Splits a search-path string at colons.
pub fn split_search_dirs(s: &str) -> (r: Vec<String>)
    ensures
        r.deep_view() == split_colon(s@),
{
    let n = s.unicode_len();
    let mut r: Vec<String> = Vec::new();
    let mut start: usize = 0;
    let mut cur: usize = 0;
    proof {
        assert(r.deep_view() + split_from(s@, 0, 0) =~= split_colon(s@));
    }
    while cur < n
        invariant
            start <= cur <= n,
            n == s@.len(),
            r.deep_view() + split_from(s@, start as int, cur as int) == split_colon(s@),
        decreases n - cur,
    {
        let c = s.get_char(cur);
        if c == ':' {
            let piece = s.substring_char(start, cur).to_owned();
            let ghost old_r = r.deep_view();
            r.push(piece);
            proof {
                assert(r.deep_view() =~= old_r.push(piece@));
                assert((old_r.push(piece@)) + split_from(s@, cur + 1, cur + 1) =~= old_r + (seq![
                    s@.subrange(start as int, cur as int)] + split_from(s@, cur + 1, cur + 1)));
            }
            start = cur + 1;
        }
        cur = cur + 1;
    }
    let piece = s.substring_char(start, n).to_owned();
    let ghost old_r = r.deep_view();
    r.push(piece);
    proof {
        assert(r.deep_view() =~= old_r.push(piece@));
        assert(old_r.push(piece@) =~= old_r + seq![s@.subrange(start as int, s@.len() as int)]);
    }
    r
}

/// `s` with every later duplicate dropped: the first occurrences from `i`
/// on, given that `s.take(i)` is already accounted for.
pub open spec fn dedup_from(s: Seq<Seq<char>>, i: int) -> Seq<Seq<char>>
    decreases s.len() - i
        when 0 <= i <= s.len()
{
    if i >= s.len() {
        Seq::empty()
    } else if s.take(i).contains(s[i]) {
        dedup_from(s, i + 1)
    } else {
        seq![s[i]] + dedup_from(s, i + 1)
    }
}

/// The desktop-entry search directories before duplicates are dropped: the
/// user data directory (explicit, or derived from the home directory), each
/// system data directory, and the flatpak export directories, each with
/// `applications` appended.
pub open spec fn raw_search_paths(
    xdg_data_home: Option<Seq<char>>,
    home: Option<Seq<char>>,
    xdg_data_dirs: Option<Seq<char>>,
) -> Seq<Seq<char>> {
    let user_data = match xdg_data_home {
        Some(p) => p,
        None => joined(
            match home {
                Some(h) => h,
                None => "/"@,
            },
            ".local/share"@,
        ),
    };
    let sys_dirs = match xdg_data_dirs {
        Some(d) => d,
        None => "/usr/local/share:/usr/share"@,
    };
    seq![joined(user_data, "applications"@)] + split_colon(sys_dirs).map_values(
        |p: Seq<char>| joined(p, "applications"@),
    ) + seq!["/var/lib/flatpak/exports/share/applications"@] + (match home {
        Some(h) => seq![joined(h, ".local/share/flatpak/exports/share/applications"@)],
        None => Seq::<Seq<char>>::empty(),
    })
}

/// The desktop-entry search directories, in discovery order, duplicates
/// dropped.
pub open spec fn search_paths_spec(
    xdg_data_home: Option<Seq<char>>,
    home: Option<Seq<char>>,
    xdg_data_dirs: Option<Seq<char>>,
) -> Seq<Seq<char>> {
    dedup_from(raw_search_paths(xdg_data_home, home, xdg_data_dirs), 0)
}

/// Whether some entry of `v` has exactly the characters of `x`.
fn contains_string(v: &Vec<String>, x: &String) -> (r: bool)
    ensures
        r == v.deep_view().contains(x@),
{
    let mut i: usize = 0;
    while i < v.len()
        invariant
            i <= v@.len(),
            forall|k: int| 0 <= k < i ==> v.deep_view()[k] != x@,
        decreases v@.len() - i,
    {
        if v[i] == *x {
            proof {
                assert(v.deep_view()[i as int] == x@);
            }
            return true;
        }
        i = i + 1;
    }
    proof {
        assert forall|k: int| 0 <= k < v.deep_view().len() implies v.deep_view()[k] != x@ by {
            assert(k < i);
        }
    }
    false
}

/// Computes the desktop-entry search directories from the data-directory
/// settings and the home directory, dropping duplicates but keeping the
/// discovery order of the first occurrences.
pub fn desktop_search_paths(
    xdg_data_home: Option<String>,
    home: Option<String>,
    xdg_data_dirs: Option<String>,
) -> (r: Vec<String>)
    ensures
        r.deep_view() == search_paths_spec(
            xdg_data_home.deep_view(),
            home.deep_view(),
            xdg_data_dirs.deep_view(),
        ),
{
    let ghost xdhv = xdg_data_home.deep_view();
    let ghost homev = home.deep_view();
    let ghost xddv = xdg_data_dirs.deep_view();
    let ghost rawv = raw_search_paths(xdhv, homev, xddv);
    let mut all: Vec<String> = Vec::new();
    let user_data: String = match xdg_data_home {
        Some(p) => p,
        None => match &home {
            Some(h) => join_path(h.as_str(), ".local/share"),
            None => join_path("/", ".local/share"),
        },
    };
    all.push(join_path(user_data.as_str(), "applications"));
    let sys_dirs: String = match xdg_data_dirs {
        Some(d) => d,
        None => "/usr/local/share:/usr/share".to_owned(),
    };
    let pieces = split_search_dirs(sys_dirs.as_str());
    let ghost piecesv = pieces.deep_view();
    let ghost mapped = piecesv.map_values(|p: Seq<char>| joined(p, "applications"@));
    let mut i: usize = 0;
    while i < pieces.len()
        invariant
            i <= piecesv.len(),
            piecesv == pieces.deep_view(),
            mapped == piecesv.map_values(|p: Seq<char>| joined(p, "applications"@)),
            all.deep_view() == seq![mapped.first()].take(0) + (seq![
                joined(
                    match xdhv {
                        Some(p) => p,
                        None => joined(
                            match homev {
                                Some(h) => h,
                                None => "/"@,
                            },
                            ".local/share"@,
                        ),
                    },
                    "applications"@,
                )] + mapped.take(i as int)),
        decreases piecesv.len() - i,
    {
        let ghost old_all = all.deep_view();
        all.push(join_path(pieces[i].as_str(), "applications"));
        proof {
            assert(pieces.deep_view()[i as int] == pieces@[i as int]@);
            assert(all.deep_view() =~= old_all.push(joined(piecesv[i as int], "applications"@)));
            assert(mapped[i as int] == joined(piecesv[i as int], "applications"@));
            assert(mapped.take(i + 1 as int) =~= mapped.take(i as int).push(mapped[i as int]));
            assert(old_all.push(mapped[i as int]) =~= seq![mapped.first()].take(0) + (seq![
                joined(
                    match xdhv {
                        Some(p) => p,
                        None => joined(
                            match homev {
                                Some(h) => h,
                                None => "/"@,
                            },
                            ".local/share"@,
                        ),
                    },
                    "applications"@,
                )] + mapped.take(i + 1 as int)));
        }
        i = i + 1;
    }
    let ghost before_flatpak = all.deep_view();
    all.push("/var/lib/flatpak/exports/share/applications".to_owned());
    match &home {
        Some(h) => {
            let ghost before_home = all.deep_view();
            all.push(join_path(h.as_str(), ".local/share/flatpak/exports/share/applications"));
            proof {
                assert(all.deep_view() =~= before_home.push(
                    joined(h@, ".local/share/flatpak/exports/share/applications"@),
                ));
            }
        },
        None => {},
    }
    proof {
        assert(mapped.take(mapped.len() as int) =~= mapped);
        assert(all.deep_view() =~= rawv);
    }
    let mut r: Vec<String> = Vec::new();
    let mut j: usize = 0;
    proof {
        assert(r.deep_view() + dedup_from(rawv, 0) =~= dedup_from(rawv, 0));
    }
    while j < all.len()
        invariant
            j <= rawv.len(),
            all.deep_view() == rawv,
            r.deep_view() + dedup_from(rawv, j as int) == dedup_from(rawv, 0),
            forall|x: Seq<char>|
                #[trigger] r.deep_view().contains(x) <==> rawv.take(j as int).contains(x),
        decreases rawv.len() - j,
    {
        proof {
            assert(all.deep_view()[j as int] == all@[j as int]@);
        }
        let dup = contains_string(&r, &all[j]);
        proof {
            if dup {
                assert(rawv.take(j as int).contains(rawv[j as int]));
            } else {
                if rawv.take(j as int).contains(rawv[j as int]) {
                    assert(r.deep_view().contains(rawv[j as int]));
                }
            }
        }
        if !dup {
            let ghost old_r = r.deep_view();
            let entry = all[j].clone();
            r.push(entry);
            proof {
                assert(all@[j as int]@ == rawv[j as int]);
                assert(r.deep_view() =~= old_r.push(rawv[j as int]));
                assert(old_r.push(rawv[j as int]) + dedup_from(rawv, j + 1) =~= old_r + (seq![
                    rawv[j as int]] + dedup_from(rawv, j + 1)));
                assert forall|x: Seq<char>|
                    #![trigger r.deep_view().contains(x)]
                    r.deep_view().contains(x) <==> rawv.take(j + 1 as int).contains(x) by {
                    assert(rawv.take(j + 1 as int) =~= rawv.take(j as int).push(rawv[j as int]));
                    vstd::seq_lib::lemma_seq_contains_after_push(
                        rawv.take(j as int),
                        rawv[j as int],
                        x,
                    );
                    vstd::seq_lib::lemma_seq_contains_after_push(old_r, rawv[j as int], x);
                    assert(r.deep_view() =~= old_r.push(rawv[j as int]));
                }
            }
        } else {
            proof {
                assert forall|x: Seq<char>|
                    #![trigger r.deep_view().contains(x)]
                    r.deep_view().contains(x) <==> rawv.take(j + 1 as int).contains(x) by {
                    assert(rawv.take(j + 1 as int) =~= rawv.take(j as int).push(rawv[j as int]));
                    vstd::seq_lib::lemma_seq_contains_after_push(
                        rawv.take(j as int),
                        rawv[j as int],
                        x,
                    );
                }
            }
        }
        j = j + 1;
    }
    proof {
        assert(r.deep_view() + dedup_from(rawv, rawv.len() as int) =~= r.deep_view());
    }
    r
}

/// The application mode: the immutable candidate store with its precomputed
/// lowercase search keys, and the index projection it publishes.
pub struct AppsMode {
    pub items: Vec<MenuItemModel>,
    pub lowered_names: Vec<String>,
    pub model: IndexList,
}

impl AppsMode {
    /// The candidate store, in original-index order.
    pub open spec fn items_spec(&self) -> Seq<MenuItemModel> {
        self.items@
    }

    /// The precomputed lowercase search keys, aligned with the store.
    pub open spec fn keys_spec(&self) -> Seq<Seq<char>> {
        self.lowered_names.deep_view()
    }

    /// Every candidate is an application, each key is the lowercase form of
    /// its candidate's name, and the store is short enough for `u32`
    /// positions.
    pub open spec fn wf(&self) -> bool {
        &&& self.items@.len() == self.lowered_names@.len()
        &&& self.items@.len() <= u32::MAX
        &&& self.model.wf()
        &&& forall|i: int|
            0 <= i < self.items@.len() ==> ((#[trigger] self.items@[i]) matches
                MenuItemModel::Application(_))
        &&& forall|i: int|
            0 <= i < self.items@.len() ==> (#[trigger] self.lowered_names@[i]@) == lower_of(
                self.items@[i].name_spec(),
            )
    }

    /// Builds the mode from the collected applications, computing each
    /// lowercase search key once; the projection starts empty.
    pub fn new(apps: Vec<Application>) -> (r: AppsMode)
        requires
            apps@.len() <= u32::MAX,
        ensures
            r.wf(),
            r.items_spec().len() == apps@.len(),
            forall|i: int|
                0 <= i < apps@.len() ==> (#[trigger] r.items_spec()[i]) == MenuItemModel::Application(apps@[i]),
            r.model.mapping() == Seq::<u32>::empty(),
            r.model.arena_len() == 0,
            r.model.pool_len() == 0,
    {
        let ghost orig = apps@;
        let mut apps = apps;
        let mut items: Vec<MenuItemModel> = Vec::new();
        let mut lowered_names: Vec<String> = Vec::new();
        while apps.len() > 0
            invariant
                items@.len() == lowered_names@.len(),
                items@.len() + apps@.len() == orig.len(),
                apps@ =~= orig.skip(items@.len() as int),
                forall|i: int|
                    0 <= i < items@.len() ==> (#[trigger] items@[i]) == MenuItemModel::Application(orig[i]),
                forall|i: int|
                    0 <= i < items@.len() ==> (#[trigger] lowered_names@[i]@) == lower_of(
                        items@[i].name_spec(),
                    ),
            decreases apps@.len(),
        {
            let a = apps.remove(0);
            proof {
                assert(a == orig[items@.len() as int]);
                assert(apps@ =~= orig.skip(items@.len() as int + 1));
            }
            let key = lowercase(a.name.as_str());
            lowered_names.push(key);
            items.push(MenuItemModel::Application(a));
        }
        let r = AppsMode { items, lowered_names, model: IndexList::new() };
        proof {
            assert(r.keys_spec() =~= r.keys_spec());
        }
        r
    }

    /// Ranks the store against `query` and installs the resulting mapping,
    /// reporting one structural change that covers every old and new
    /// position.  The identity pool is untouched.
    pub fn search(&mut self, query: &str) -> (change: ListChange)
        requires
            old(self).wf(),
        ensures
            final(self).wf(),
            final(self).items_spec() == old(self).items_spec(),
            final(self).keys_spec() == old(self).keys_spec(),
            final(self).model.mapping() == rank_indices_spec(query@, old(self).keys_spec()),
            final(self).model.arena_len() == old(self).model.arena_len(),
            final(self).model.pool_len() == old(self).model.pool_len(),
            forall|t: usize| final(self).model.is_bound(t) == old(self).model.is_bound(t),
            forall|t: usize|
                t < old(self).model.arena_len() ==> final(self).model.slot_index(t) == old(
                    self,
                ).model.slot_index(t),
            change.position == 0,
            change.removed == old(self).model.mapping().len(),
            change.added == rank_indices_spec(query@, old(self).keys_spec()).len(),
    {
        proof {
            if query@.len() > 0 {
                lemma_rank_prefix_sound(
                    lower_of(query@),
                    self.lowered_names.deep_view(),
                    self.lowered_names.deep_view().len() as int,
                );
            }
        }
        let idx = rank_indices(query, &self.lowered_names);
        self.model.set_indecies(idx)
    }

    /// Installs the identity mapping: every candidate, in store order.  Used
    /// once at startup to show the full store before the first keystroke.
    pub fn filled_model(&mut self) -> (change: ListChange)
        requires
            old(self).wf(),
        ensures
            final(self).wf(),
            final(self).items_spec() == old(self).items_spec(),
            final(self).keys_spec() == old(self).keys_spec(),
            final(self).model.mapping().len() == old(self).items_spec().len(),
            forall|k: int|
                0 <= k < final(self).model.mapping().len() ==> final(self).model.mapping()[k] == k,
            final(self).model.arena_len() == old(self).model.arena_len(),
            final(self).model.pool_len() == old(self).model.pool_len(),
            change.position == 0,
            change.removed == old(self).model.mapping().len(),
            change.added == old(self).items_spec().len(),
    {
        proof {
            reveal_strlit("");
        }
        let idx = rank_indices("", &self.lowered_names);
        proof {
            assert forall|k: int|
                0 <= k < idx@.len() implies idx@[k] == k by {}
        }
        self.model.set_indecies(idx)
    }

    /// The candidate at a resolved original index.
    pub fn get_menu_item_model(&self, index: u32) -> (r: &MenuItemModel)
        requires
            self.wf(),
            index < self.items_spec().len(),
        ensures
            r == self.items_spec()[index as int],
    {
        &self.items[index as usize]
    }
}

} // verus!
