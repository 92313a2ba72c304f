use vstd::prelude::*;
use crate::text::{chars_of, ends_with, owned, push_str, same_text, text_ends_with};

verus! {

/// The static files that may be served, in the order they are searched.
pub open spec fn whitelist() -> Seq<Seq<char>> {
    seq!["skeleton.css"@, "main.css"@, "board.css"@, "thread.css"@, "main.js"@]
}

/// How many files the whitelist holds.
pub const WHITELIST_LEN: usize = 5;

/// Entry `i` of the whitelist.
pub fn whitelist_entry(i: usize) -> (s: &'static str)
    requires
        i < WHITELIST_LEN,
    ensures
        s@ == whitelist()[i as int],
{
    if i == 0 {
        "skeleton.css"
    } else if i == 1 {
        "main.css"
    } else if i == 2 {
        "board.css"
    } else if i == 3 {
        "thread.css"
    } else {
        "main.js"
    }
}

/// The directory that files with extension `ext` are served from.
pub open spec fn path_prefix_spec(ext: Seq<char>) -> Seq<char> {
    if ext == "css"@ {
        "style"@
    } else if ext == "png"@ || ext == "jpg"@ {
        "img"@
    } else if ext == "js"@ {
        "js"@
    } else {
        "misc"@
    }
}

/// The directory that files with extension `ext` are served from.
pub fn path_prefix(ext: &str) -> (r: &'static str)
    ensures
        r@ == path_prefix_spec(ext@),
{
    if same_text(ext, "css") {
        "style"
    } else if same_text(ext, "png") || same_text(ext, "jpg") {
        "img"
    } else if same_text(ext, "js") {
        "js"
    } else {
        "misc"
    }
}

/// The content type that files with extension `ext` are served with.
pub open spec fn res_type_spec(ext: Seq<char>) -> Seq<char> {
    if ext == "css"@ {
        "text/css"@
    } else if ext == "html"@ {
        "text/html"@
    } else if ext == "js"@ {
        "text/javascript"@
    } else {
        "test/plain"@
    }
}

/// The content type (as MIME text) that files with extension `ext` are
/// served with.
pub fn res_type(ext: &str) -> (r: &'static str)
    ensures
        r@ == res_type_spec(ext@),
{
    if same_text(ext, "css") {
        "text/css"
    } else if same_text(ext, "html") {
        "text/html"
    } else if same_text(ext, "js") {
        "text/javascript"
    } else {
        "test/plain"
    }
}

/// The index of the last `.` among the first `i` characters, or -1.
pub open spec fn last_dot_before(s: Seq<char>, i: int) -> int
    decreases i,
{
    if i <= 0 {
        -1
    } else if s[i - 1] == '.' {
        i - 1
    } else {
        last_dot_before(s, i - 1)
    }
}

/// The extension of a file name (one without `/`): what follows its last
/// `.`, unless that `.` opens the name or there is none.
pub open spec fn extension_spec(name: Seq<char>) -> Option<Seq<char>> {
    let k = last_dot_before(name, name.len() as int);
    if k > 0 {
        Some(name.subrange(k + 1, name.len() as int))
    } else {
        None
    }
}

/// The extension of a file name without `/`, as `Path::extension` finds it.
pub fn extension(name: &str) -> (r: Option<String>)
    ensures
        r matches Some(e) ==> extension_spec(name@) == Some(e@),
        r is None ==> extension_spec(name@) is None,
{
    let cs = chars_of(name);
    let mut i: usize = cs.len();
    while i > 0 && cs[i - 1] != '.'
        invariant
            cs@ == name@,
            i <= cs@.len(),
            last_dot_before(name@, cs@.len() as int) == last_dot_before(name@, i as int),
        decreases i,
    {
        i = i - 1;
    }
    if i <= 1 {
        return None;
    }
    let k = i - 1;
    let mut e = String::new();
    let mut j = i;
    while j < cs.len()
        invariant
            cs@ == name@,
            i <= j <= cs@.len(),
            e@ == name@.subrange(i as int, j as int),
        decreases cs@.len() - j,
    {
        crate::text::push_char(&mut e, cs[j]);
        j = j + 1;
        assert(name@.subrange(i as int, j as int) =~= name@.subrange(i as int, j - 1).push(cs@[j - 1]));
    }
    assert(last_dot_before(name@, i as int) == k);
    Some(e)
}

/// Every whitelist entry has an extension.
pub proof fn lemma_whitelist_extensions(i: int)
    requires
        0 <= i < 5,
    ensures
        extension_spec(whitelist()[i]) is Some,
{
    reveal_strlit("skeleton.css");
    reveal_strlit("main.css");
    reveal_strlit("board.css");
    reveal_strlit("thread.css");
    reveal_strlit("main.js");
    reveal_with_fuel(last_dot_before, 5);
    let s = whitelist()[i];
    assert(last_dot_before(s, s.len() as int) > 0);
}

/// `Path::join` of a relative directory and a name without `/`
/// in it: an absolute name replaces the directory, otherwise a `/` joins them.
pub open spec fn join_spec(dir: Seq<char>, name: Seq<char>) -> Seq<char> {
    if name.len() > 0 && name[0] == '/' {
        name
    } else {
        dir + "/"@ + name
    }
}

/// The first whitelist entry, from index `i` on, that ends with `res`; -1 if none.
pub open spec fn first_match_from(res: Seq<char>, i: int) -> int
    decreases 5 - i,
{
    if i < 0 || i >= 5 {
        -1
    } else if ends_with(whitelist()[i], res) {
        i
    } else {
        first_match_from(res, i + 1)
    }
}

/// The first whitelist entry that ends with `res`; -1 if none.
pub open spec fn first_match(res: Seq<char>) -> int {
    first_match_from(res, 0)
}

/// The static file that a request for `res` is answered with: where it is
/// read from and the content type it is sent with.
#[derive(Debug, Clone)]
pub struct ResourceChoice {
    pub path: String,
    pub content_type: String,
}

/// Chooses the file to serve for a request of `/res/<res>`: the first
/// whitelist entry that ends with `res` decides the extension, hence the
/// directory and the content type; the file read is `res` in that
/// directory. `None` (not found) when no entry ends with `res`.
pub fn find_resource(res: &str) -> (r: Option<ResourceChoice>)
    ensures
        r is Some <==> first_match(res@) >= 0,
        r matches Some(c) ==> {
            let ext = extension_spec(whitelist()[first_match(res@)])->0;
            &&& c.path@ == join_spec(path_prefix_spec(ext), res@)
            &&& c.content_type@ == res_type_spec(ext)
        },
{
    let mut i: usize = 0;
    while i < WHITELIST_LEN
        invariant
            i <= WHITELIST_LEN,
            first_match(res@) == first_match_from(res@, i as int),
        decreases WHITELIST_LEN - i,
    {
        let entry = whitelist_entry(i);
        if text_ends_with(entry, res) {
            proof {
                lemma_whitelist_extensions(i as int);
            }
            let ext = match extension(entry) {
                Some(e) => e,
                None => {
                    return None;
                },
            };
            let dir = path_prefix(ext.as_str());
            let ty = res_type(ext.as_str());
            let rs = chars_of(res);
            let path = if rs.len() > 0 && rs[0] == '/' {
                owned(res)
            } else {
                let mut p = owned(dir);
                push_str(&mut p, "/");
                push_str(&mut p, res);
                p
            };
            return Some(ResourceChoice { path, content_type: owned(ty) });
        }
        i = i + 1;
    }
    None
}

} // verus!
