//! Directory-watch decision rules.
//!
//! The filesystem subscription, the debounce sleep, the callback and the
//! archive move live in the surrounding application's event loop; the
//! decisions are verified here: which events are relevant, which paths are
//! eligible (a regular file with an allow-listed extension, compared case-
//! insensitively), and where a processed file is archived.

use vstd::prelude::*;
use crate::textutil::{lower_seq, append_lower, append_str, string_from_chars};

verus! {

/// What to watch for, and what to do afterwards.
pub struct WatchConfig {
    pub watch_dir: String,
    pub output_dir: Option<String>,
    pub archive_dir: Option<String>,
    pub recursive: bool,
    pub extensions: Vec<String>,
}

/// The views of the extension allow-list.
pub open spec fn ext_views(v: Seq<String>) -> Seq<Seq<char>> {
    v.map_values(|s: String| s@)
}

impl Default for WatchConfig {
    /// Watch the working directory, non-recursively, for the common image
    /// extensions; no output directory, no archive directory.
    fn default() -> (r: Self)
        ensures
            r.watch_dir@ == "."@,
            r.output_dir is None,
            r.archive_dir is None,
            !r.recursive,
            ext_views(r.extensions@) =~= seq!["jpg"@, "jpeg"@, "png"@, "bmp"@, "tiff"@],
    {
        let mut extensions: Vec<String> = Vec::new();
        extensions.push(String::from_str("jpg"));
        extensions.push(String::from_str("jpeg"));
        extensions.push(String::from_str("png"));
        extensions.push(String::from_str("bmp"));
        extensions.push(String::from_str("tiff"));
        proof {
            assert(ext_views(extensions@) =~= seq!["jpg"@, "jpeg"@, "png"@, "bmp"@, "tiff"@]);
        }
        WatchConfig {
            watch_dir: String::from_str("."),
            output_dir: None,
            archive_dir: None,
            recursive: false,
            extensions,
        }
    }
}

/// A filesystem notification, reduced to what the rules read.
#[derive(Clone, Copy, PartialEq, Eq, Structural, Debug)]
pub enum WatchEventKind {
    Create,
    Modify,
    Other,
}

/// One notification: its kind and the paths it names.
pub struct WatchEvent {
    pub kind: WatchEventKind,
    pub paths: Vec<String>,
}

/// The index where the path's file name begins: just after the last `/`.
pub open spec fn file_name_start(p: Seq<char>) -> int
    decreases p.len(),
{
    if p.len() == 0 {
        0
    } else if p.last() == '/' {
        p.len() as int
    } else {
        file_name_start(p.drop_last())
    }
}

/// The index of the last `.` in the file name, relative to the name's
/// start, or -1 when there is none.
pub open spec fn last_dot(name: Seq<char>) -> int
    decreases name.len(),
{
    if name.len() == 0 {
        -1
    } else if name.last() == '.' {
        name.len() - 1
    } else {
        last_dot(name.drop_last())
    }
}

/// The path's extension: what follows the last `.` of the file name,
/// provided that dot is not the name's first character; `None` otherwise.
pub open spec fn ext_of(p: Seq<char>) -> Option<Seq<char>> {
    let name = p.subrange(file_name_start(p), p.len() as int);
    let d = last_dot(name);
    if d <= 0 {
        None
    } else {
        Some(name.subrange(d + 1, name.len() as int))
    }
}

/// Eligibility: a regular file whose lower-cased extension is in the
/// allow-list.
pub open spec fn should_process_spec(p: Seq<char>, is_regular_file: bool, exts: Seq<Seq<char>>) -> bool {
    is_regular_file && match ext_of(p) {
        Some(e) => exists|i: int| 0 <= i < exts.len() && exts[i] == lower_seq(e),
        None => false,
    }
}

/// `file_name_start` is within the path.
proof fn lemma_file_name_start_bounds(p: Seq<char>)
    ensures
        0 <= file_name_start(p) <= p.len(),
    decreases p.len(),
{
    if p.len() > 0 && p.last() != '/' {
        lemma_file_name_start_bounds(p.drop_last());
    }
}

/// `last_dot` is within the name.
proof fn lemma_last_dot_bounds(name: Seq<char>)
    ensures
        -1 <= last_dot(name) < name.len(),
    decreases name.len(),
{
    if name.len() > 0 && name.last() != '.' {
        lemma_last_dot_bounds(name.drop_last());
    }
}

/// Decides whether the file at `path` is processed: `is_regular_file` is
/// what the filesystem says of it, and the extension comparison is
/// case-insensitive against the allow-list.
#[verifier::loop_isolation(false)]
pub fn should_process(path: &String, is_regular_file: bool, config: &WatchConfig) -> (r: bool)
    ensures
        r == should_process_spec(path@, is_regular_file, ext_views(config.extensions@)),
{
    if !is_regular_file {
        return false;
    }
    let s = path.as_str();
    let len = s.unicode_len();
    let mut j = len;
    proof {
        assert(s@.take(len as int) =~= s@);
    }
    while j > 0
        invariant
            j <= len,
            len == s@.len(),
            file_name_start(s@) == file_name_start(s@.take(j as int)),
        decreases j,
    {
        let c = s.get_char(j - 1);
        if c == '/' {
            break ;
        }
        proof {
            assert(s@.take(j as int).drop_last() =~= s@.take(j - 1));
            assert(s@.take(j as int).last() == s@[j - 1]);
        }
        j -= 1;
    }
    let fs = j;
    proof {
        if fs > 0 {
            assert(s@.take(fs as int).last() == s@[fs - 1]);
        }
        assert(file_name_start(s@) == fs as int);
        lemma_file_name_start_bounds(s@);
    }
    let ghost name = s@.subrange(fs as int, len as int);
    let mut k = len;
    proof {
        assert(name.take(len - fs) =~= name);
    }
    while k > fs
        invariant
            fs <= k <= len,
            len == s@.len(),
            name == s@.subrange(fs as int, len as int),
            last_dot(name) == last_dot(name.take(k - fs)),
        decreases k,
    {
        let c = s.get_char(k - 1);
        if c == '.' {
            break ;
        }
        proof {
            assert(name.take(k - fs).drop_last() =~= name.take(k - 1 - fs));
            assert(name.take(k - fs).last() == name[k - 1 - fs]);
            assert(name[k - 1 - fs] == s@[k - 1]);
        }
        k -= 1;
    }
    proof {
        if k > fs {
            assert(name.take(k - fs).last() == name[k - 1 - fs]);
            assert(name[k - 1 - fs] == s@[k - 1]);
        } else {
            assert(name.take(0) =~= Seq::<char>::empty());
        }
        assert(last_dot(name) == k - 1 - fs || (k == fs && last_dot(name) == -1));
    }
    if k <= fs {
        proof {
            assert(last_dot(name) <= 0);
        }
        return false;
    }
    if k - fs == 1 {
        // a dot at the name's first character: no extension
        proof {
            assert(last_dot(name) <= 0);
        }
        return false;
    }
    let ghost d = (k - 1 - fs) as int;
    proof {
        assert(last_dot(name) == d);
        assert(d > 0);
        lemma_last_dot_bounds(name);
        assert(name.subrange(d + 1, name.len() as int) =~= s@.subrange(k as int, len as int));
    }
    let ext = s.substring_char(k, len);
    let mut lowered: Vec<char> = Vec::new();
    append_lower(&mut lowered, ext);
    let ext_lower = string_from_chars(&lowered);
    let ghost exts = ext_views(config.extensions@);
    let mut i: usize = 0;
    while i < config.extensions.len()
        invariant
            i <= exts.len(),
            exts.len() == config.extensions@.len(),
            forall|t: int| 0 <= t < i ==> exts[t] != lower_seq(ext_of(path@)->Some_0),
        decreases exts.len() - i,
    {
        if config.extensions[i] == ext_lower {
            proof {
                assert(exts[i as int] == config.extensions@[i as int]@);
            }
            return true;
        }
        proof {
            assert(exts[i as int] == config.extensions@[i as int]@);
        }
        i += 1;
    }
    false
}

/// The paths of `paths` that are eligible, in order; `flags` holds, for
/// each path, whether it is a regular file.
pub open spec fn sp_filter(paths: Seq<String>, flags: Seq<bool>, exts: Seq<Seq<char>>) -> Seq<
    String,
>
    decreases paths.len(),
{
    if paths.len() == 0 {
        Seq::empty()
    } else {
        sp_filter(paths.drop_last(), flags.drop_last(), exts) + (if should_process_spec(
            paths.last()@,
            flags.last(),
            exts,
        ) {
            seq![paths.last()]
        } else {
            Seq::empty()
        })
    }
}

/// What one notification leads to: for a create or modify event, its
/// eligible paths in order; nothing for any other kind.
pub open spec fn sp_plan(
    kind: WatchEventKind,
    paths: Seq<String>,
    flags: Seq<bool>,
    exts: Seq<Seq<char>>,
) -> Seq<String> {
    match kind {
        WatchEventKind::Create => sp_filter(paths, flags, exts),
        WatchEventKind::Modify => sp_filter(paths, flags, exts),
        WatchEventKind::Other => Seq::empty(),
    }
}

/// Plans one notification: hands back, in order, the paths the caller
/// should debounce and process.  `file_flags[i]` says whether
/// `event.paths[i]` is a regular file.
#[verifier::loop_isolation(false)]
pub fn plan_event(event: &WatchEvent, file_flags: &Vec<bool>, config: &WatchConfig) -> (r: Vec<
    String,
>)
    requires
        file_flags@.len() == event.paths@.len(),
    ensures
        r@ == sp_plan(event.kind, event.paths@, file_flags@, ext_views(config.extensions@)),
{
    let ghost exts = ext_views(config.extensions@);
    let relevant = match event.kind {
        WatchEventKind::Create => true,
        WatchEventKind::Modify => true,
        WatchEventKind::Other => false,
    };
    let mut out: Vec<String> = Vec::new();
    if !relevant {
        proof {
            assert(out@ =~= sp_plan(event.kind, event.paths@, file_flags@, exts));
        }
        return out;
    }
    let mut i: usize = 0;
    while i < event.paths.len()
        invariant
            i <= event.paths@.len(),
            file_flags@.len() == event.paths@.len(),
            out@ == sp_filter(event.paths@.take(i as int), file_flags@.take(i as int), exts),
        decreases event.paths@.len() - i,
    {
        let eligible = should_process(&event.paths[i], file_flags[i], config);
        if eligible {
            out.push(event.paths[i].clone());
        }
        proof {
            assert(event.paths@.take(i + 1).drop_last() =~= event.paths@.take(i as int));
            assert(file_flags@.take(i + 1).drop_last() =~= file_flags@.take(i as int));
            assert(event.paths@.take(i + 1).last() == event.paths@[i as int]);
            assert(file_flags@.take(i + 1).last() == file_flags@[i as int]);
            if eligible {
                assert(out@ =~= sp_filter(
                    event.paths@.take(i as int),
                    file_flags@.take(i as int),
                    exts,
                ) + seq![event.paths@[i as int]]);
            }
        }
        i += 1;
    }
    proof {
        assert(event.paths@.take(event.paths@.len() as int) =~= event.paths@);
        assert(file_flags@.take(file_flags@.len() as int) =~= file_flags@);
    }
    out
}

/// A path that is ineligible wherever it occurs is never kept.
proof fn lemma_filter_skips(paths: Seq<String>, flags: Seq<bool>, exts: Seq<Seq<char>>, p: String)
    requires
        flags.len() == paths.len(),
        forall|i: int|
            0 <= i < paths.len() && #[trigger] paths[i] == p ==> !should_process_spec(
                paths[i]@,
                flags[i],
                exts,
            ),
    ensures
        !sp_filter(paths, flags, exts).contains(p),
    decreases paths.len(),
{
    let whole = sp_filter(paths, flags, exts);
    if paths.len() == 0 {
        assert(!whole.contains(p));
    } else {
        lemma_filter_skips(paths.drop_last(), flags.drop_last(), exts, p);
        let pre = sp_filter(paths.drop_last(), flags.drop_last(), exts);
        assert forall|j: int| 0 <= j < whole.len() implies whole[j] != p by {
            if j < pre.len() {
                assert(whole[j] == pre[j]);
                assert(pre.contains(pre[j]));
            } else {
                assert(whole[j] == paths.last());
                assert(should_process_spec(paths[paths.len() - 1]@, flags[paths.len() - 1], exts));
            }
        }
    }
}

/// Law: a file that is not eligible — in particular one whose extension is
/// not in the allow-list — never triggers processing: whatever the event's
/// kind, the plan never holds such a path.
pub proof fn lemma_ineligible_never_planned(
    kind: WatchEventKind,
    paths: Seq<String>,
    flags: Seq<bool>,
    exts: Seq<Seq<char>>,
    p: String,
)
    requires
        flags.len() == paths.len(),
        forall|i: int|
            0 <= i < paths.len() && #[trigger] paths[i] == p ==> !should_process_spec(
                paths[i]@,
                flags[i],
                exts,
            ),
    ensures
        !sp_plan(kind, paths, flags, exts).contains(p),
{
    match kind {
        WatchEventKind::Other => {
            assert(!Seq::<String>::empty().contains(p));
        },
        _ => {
            lemma_filter_skips(paths, flags, exts, p);
        },
    }
}

/// The path's file name, as the archive move uses it: the last component,
/// or nothing when it is empty or a dot component.
pub open spec fn file_name_of(p: Seq<char>) -> Option<Seq<char>> {
    let name = p.subrange(file_name_start(p), p.len() as int);
    if name.len() == 0 || name == "."@ || name == ".."@ {
        None
    } else {
        Some(name)
    }
}

/// A directory path joined with a file name, a `/` between them unless the
/// directory already ends with one or is empty.
pub open spec fn join_path(dir: Seq<char>, name: Seq<char>) -> Seq<char> {
    if dir.len() == 0 {
        name
    } else if dir.last() == '/' {
        dir + name
    } else {
        dir + seq!['/'] + name
    }
}

/// Where a processed file is archived: the archive directory joined with
/// the file's own name; a file without a usable name is left alone.
#[verifier::loop_isolation(false)]
pub fn archive_target(path: &String, archive_dir: &String) -> (r: Option<String>)
    ensures
        match r {
            Some(t) => file_name_of(path@) matches Some(nm) && t@ == join_path(archive_dir@, nm),
            None => file_name_of(path@) is None,
        },
{
    let s = path.as_str();
    let len = s.unicode_len();
    let mut j = len;
    proof {
        assert(s@.take(len as int) =~= s@);
    }
    while j > 0
        invariant
            j <= len,
            len == s@.len(),
            file_name_start(s@) == file_name_start(s@.take(j as int)),
        decreases j,
    {
        let c = s.get_char(j - 1);
        if c == '/' {
            break ;
        }
        proof {
            assert(s@.take(j as int).drop_last() =~= s@.take(j - 1));
            assert(s@.take(j as int).last() == s@[j - 1]);
        }
        j -= 1;
    }
    let fs = j;
    proof {
        if fs > 0 {
            assert(s@.take(fs as int).last() == s@[fs - 1]);
        }
        assert(file_name_start(s@) == fs as int);
        lemma_file_name_start_bounds(s@);
    }
    let ghost name = s@.subrange(fs as int, len as int);
    let cnt = len - fs;
    proof {
        reveal_strlit(".");
        reveal_strlit("..");
    }
    if cnt == 0 {
        return None;
    }
    if cnt == 1 && s.get_char(fs) == '.' {
        proof {
            assert(name =~= "."@);
        }
        return None;
    }
    if cnt == 2 && s.get_char(fs) == '.' && s.get_char(fs + 1) == '.' {
        proof {
            assert(name =~= ".."@);
        }
        return None;
    }
    proof {
        assert(name != "."@ && name != ".."@) by {
            if name == "."@ {
                assert(name.len() == 1 && name[0] == '.');
                assert(s@[fs as int] == '.');
            }
            if name == ".."@ {
                assert(name.len() == 2 && name[0] == '.' && name[1] == '.');
            }
        }
    }
    let dlen = archive_dir.as_str().unicode_len();
    let mut out: Vec<char> = Vec::new();
    append_str(&mut out, archive_dir.as_str());
    if dlen > 0 {
        let last = archive_dir.as_str().get_char(dlen - 1);
        if last != '/' {
            out.push('/');
        }
    }
    let nm = s.substring_char(fs, len);
    proof {
        assert(nm@ =~= name);
    }
    append_str(&mut out, nm);
    let t = string_from_chars(&out);
    proof {
        assert(t@ =~= join_path(archive_dir@, name));
    }
    Some(t)
}

} // verus!
