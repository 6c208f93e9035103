//! The invocation context that a build hands to the script layer.
use vstd::prelude::*;

verus! {

/// The parent of a path, as `std::path::Path::parent` gives it.
pub uninterp spec fn parent_path_of(p: Seq<char>) -> Option<Seq<char>>;

/// The view of an optional string.
pub open spec fn opt_view(o: Option<String>) -> Option<Seq<char>> {
    match o {
        Some(s) => Some(s@),
        None => None,
    }
}

/// The script directory for a parent path: absent where there is no
/// parent or it is empty (a bare file name).
pub open spec fn script_dir_for(parent: Option<Seq<char>>) -> Option<Seq<char>> {
    match parent {
        Some(p) => if p.len() == 0 { None } else { Some(p) },
        None => None,
    }
}

/// Relies on std::path::Path::parent: the path without its last component,
/// `None` for an empty path or a root; the result depends on the path alone.
#[verifier::external_body]
fn path_parent(p: &str) -> (r: Option<String>)
    ensures
        opt_view(r) == parent_path_of(p@),
        p@.len() == 0 ==> r is None,
{
    std::path::Path::new(p).parent().map(|q| q.to_string_lossy().into_owned())
}

/// Relies on std::path::absolute: the path made absolute against the
/// current directory, `None` where that fails (an empty path always fails).
#[verifier::external_body]
fn path_absolute(p: &str) -> (r: Option<String>)
    ensures
        p@.len() == 0 ==> r is None,
        r matches Some(a) ==> a@.len() > 0,
{
    std::path::absolute(p).ok().map(|q| q.to_string_lossy().into_owned())
}

/// Where a build script lies: its directory and path, relative and
/// absolute. A part that cannot be computed is absent.
#[derive(Debug)]
pub struct InvocationConfig {
    pub script_dir: Option<String>,
    pub script_path: String,
    pub abs_script_dir: Option<String>,
    pub abs_script_path: Option<String>,
}

impl InvocationConfig {
    /// The context for the script at `path`, from the parts computed for it:
    /// its parent, its absolute form and that form's parent.
    pub fn from_parts(
        path: &str,
        parent: Option<String>,
        absolute: Option<String>,
        absolute_parent: Option<String>,
    ) -> (r: InvocationConfig)
        ensures
            r.script_path@ == path@,
            opt_view(r.script_dir) == script_dir_for(opt_view(parent)),
            opt_view(r.abs_script_path) == opt_view(absolute),
            opt_view(r.abs_script_dir) == if absolute is Some { opt_view(absolute_parent) } else { None },
    {
        let script_dir = match parent {
            Some(p) => {
                if p.as_str().is_empty() {
                    None
                } else {
                    Some(p)
                }
            },
            None => None,
        };
        let abs_script_dir = match absolute {
            Some(_) => absolute_parent,
            None => None,
        };
        InvocationConfig {
            script_dir,
            script_path: String::from_str(path),
            abs_script_dir,
            abs_script_path: absolute,
        }
    }

    /// The context for the script at `path`. Its absolute form depends on
    /// the current directory; the rest on `path` alone.
    pub fn for_script(path: &str) -> (r: InvocationConfig)
        ensures
            r.script_path@ == path@,
            opt_view(r.script_dir) == script_dir_for(parent_path_of(path@)),
            r.abs_script_dir is Some ==> r.abs_script_path is Some,
            r.abs_script_path matches Some(a) ==> opt_view(r.abs_script_dir) == parent_path_of(a@),
            path@.len() == 0 ==> r.script_dir is None && r.abs_script_path is None && r.abs_script_dir is None,
    {
        let parent = path_parent(path);
        let absolute = path_absolute(path);
        let absolute_parent = match &absolute {
            Some(a) => path_parent(a.as_str()),
            None => None,
        };
        InvocationConfig::from_parts(path, parent, absolute, absolute_parent)
    }
}


/// Keys under which the script layer receives the parts of a context.
pub const KEY_SCRIPT_DIR: &'static str = "SCRIPTDIR";

pub const KEY_SCRIPT_PATH: &'static str = "SCRIPTPATH";

pub const KEY_ABS_SCRIPT_DIR: &'static str = "ABSSCRIPTDIR";

pub const KEY_ABS_SCRIPT_PATH: &'static str = "ABSSCRIPTPATH";

/// The entry for an optional part: none where the part is absent.
pub open spec fn optional_entry(key: Seq<char>, value: Option<String>) -> Seq<(Seq<char>, Seq<char>)> {
    match value {
        Some(v) => seq![(key, v@)],
        None => Seq::empty(),
    }
}

/// The key/value entries that stand for a context: one per present part.
pub open spec fn config_entries_of(c: InvocationConfig) -> Seq<(Seq<char>, Seq<char>)> {
    optional_entry(KEY_SCRIPT_DIR@, c.script_dir) + seq![(KEY_SCRIPT_PATH@, c.script_path@)]
        + optional_entry(KEY_ABS_SCRIPT_DIR@, c.abs_script_dir) + optional_entry(KEY_ABS_SCRIPT_PATH@, c.abs_script_path)
}

/// The views of key/value entries, in order.
pub open spec fn entries_view(v: Seq<(String, String)>) -> Seq<(Seq<char>, Seq<char>)> {
    v.map_values(|e: (String, String)| (e.0@, e.1@))
}

/// The value under `key` in the entries: that of its first entry, if any.
pub open spec fn entry_value(entries: Seq<(Seq<char>, Seq<char>)>, key: Seq<char>) -> Option<Seq<char>>
    decreases entries.len(),
{
    if entries.len() == 0 {
        None
    } else if entries[0].0 == key {
        Some(entries[0].1)
    } else {
        entry_value(entries.drop_first(), key)
    }
}

proof fn lemma_entry_value_optional(
    k: Seq<char>,
    o: Option<String>,
    rest: Seq<(Seq<char>, Seq<char>)>,
    key: Seq<char>,
)
    ensures
        entry_value(optional_entry(k, o) + rest, key) == if key == k && o is Some {
            opt_view(o)
        } else {
            entry_value(rest, key)
        },
{
    let s = optional_entry(k, o) + rest;
    match o {
        Some(v) => {
            assert(s[0] == (k, v@));
            assert(s.drop_first() =~= rest);
        },
        None => {
            assert(s =~= rest);
        },
    }
}

/// The entries of a context hold exactly its present parts, each under its
/// own key, and nothing under any other key.
pub proof fn lemma_entries_exact(c: InvocationConfig, key: Seq<char>)
    ensures
        entry_value(config_entries_of(c), KEY_SCRIPT_DIR@) == opt_view(c.script_dir),
        entry_value(config_entries_of(c), KEY_SCRIPT_PATH@) == Some(c.script_path@),
        entry_value(config_entries_of(c), KEY_ABS_SCRIPT_DIR@) == opt_view(c.abs_script_dir),
        entry_value(config_entries_of(c), KEY_ABS_SCRIPT_PATH@) == opt_view(c.abs_script_path),
        key != KEY_SCRIPT_DIR@ && key != KEY_SCRIPT_PATH@ && key != KEY_ABS_SCRIPT_DIR@ && key
            != KEY_ABS_SCRIPT_PATH@ ==> entry_value(config_entries_of(c), key) is None,
{
    reveal_strlit("SCRIPTDIR");
    reveal_strlit("SCRIPTPATH");
    reveal_strlit("ABSSCRIPTDIR");
    reveal_strlit("ABSSCRIPTPATH");
    let d = optional_entry(KEY_SCRIPT_DIR@, c.script_dir);
    let p = Some(c.script_path);
    let ad = optional_entry(KEY_ABS_SCRIPT_DIR@, c.abs_script_dir);
    let ap = optional_entry(KEY_ABS_SCRIPT_PATH@, c.abs_script_path);
    assert(seq![(KEY_SCRIPT_PATH@, c.script_path@)] =~= optional_entry(KEY_SCRIPT_PATH@, p));
    let pp = optional_entry(KEY_SCRIPT_PATH@, p);
    let all = config_entries_of(c);
    assert(all =~= d + (pp + (ad + (ap + Seq::empty()))));
    assert forall|k: Seq<char>| #![auto] true implies entry_value(all, k) == (if k == KEY_SCRIPT_DIR@
        && c.script_dir is Some {
        opt_view(c.script_dir)
    } else if k == KEY_SCRIPT_PATH@ {
        Some(c.script_path@)
    } else if k == KEY_ABS_SCRIPT_DIR@ && c.abs_script_dir is Some {
        opt_view(c.abs_script_dir)
    } else if k == KEY_ABS_SCRIPT_PATH@ && c.abs_script_path is Some {
        opt_view(c.abs_script_path)
    } else {
        None::<Seq<char>>
    }) by {
        lemma_entry_value_optional(KEY_SCRIPT_DIR@, c.script_dir, pp + (ad + (ap + Seq::empty())), k);
        lemma_entry_value_optional(KEY_SCRIPT_PATH@, p, ad + (ap + Seq::empty()), k);
        lemma_entry_value_optional(KEY_ABS_SCRIPT_DIR@, c.abs_script_dir, ap + Seq::empty(), k);
        lemma_entry_value_optional(KEY_ABS_SCRIPT_PATH@, c.abs_script_path, Seq::empty(), k);
    }
    assert(KEY_SCRIPT_DIR@.len() == 9 && KEY_SCRIPT_PATH@.len() == 10 && KEY_ABS_SCRIPT_DIR@.len() == 12
        && KEY_ABS_SCRIPT_PATH@.len() == 13);
    assert(entry_value(all, KEY_SCRIPT_DIR@) == opt_view(c.script_dir));
    assert(entry_value(all, KEY_SCRIPT_PATH@) == Some(c.script_path@));
    assert(entry_value(all, KEY_ABS_SCRIPT_DIR@) == opt_view(c.abs_script_dir));
    assert(entry_value(all, KEY_ABS_SCRIPT_PATH@) == opt_view(c.abs_script_path));
}

/// Appends the entry for an optional part, where it is present.
fn push_entry(entries: &mut Vec<(String, String)>, key: &str, value: &Option<String>)
    ensures
        entries_view(final(entries)@) == entries_view(old(entries)@) + optional_entry(key@, *value),
{
    let ghost before = entries_view(entries@);
    match value {
        Some(v) => {
            entries.push((String::from_str(key), v.clone()));
            assert(entries_view(entries@) =~= before + seq![(key@, v@)]);
        },
        None => {
            assert(before + Seq::<(Seq<char>, Seq<char>)>::empty() =~= before);
        },
    }
}

impl InvocationConfig {
    /// The key/value entries that the script layer receives for this context.
    pub fn entries(&self) -> (r: Vec<(String, String)>)
        ensures
            entries_view(r@) == config_entries_of(*self),
    {
        let mut r: Vec<(String, String)> = Vec::new();
        assert(entries_view(r@) =~= Seq::<(Seq<char>, Seq<char>)>::empty());
        push_entry(&mut r, KEY_SCRIPT_DIR, &self.script_dir);
        let path = Some(self.script_path.clone());
        push_entry(&mut r, KEY_SCRIPT_PATH, &path);
        push_entry(&mut r, KEY_ABS_SCRIPT_DIR, &self.abs_script_dir);
        push_entry(&mut r, KEY_ABS_SCRIPT_PATH, &self.abs_script_path);
        proof {
            assert(optional_entry(KEY_SCRIPT_PATH@, path) =~= seq![(KEY_SCRIPT_PATH@, self.script_path@)]);
            assert(Seq::<(Seq<char>, Seq<char>)>::empty() + optional_entry(KEY_SCRIPT_DIR@, self.script_dir) =~= optional_entry(KEY_SCRIPT_DIR@, self.script_dir));
        }
        r
    }
}

} // verus!
