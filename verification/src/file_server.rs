//! Configuration and path rules of the static file server: which prefix it
//! serves, which paths stay hidden, which index files stand in for a
//! directory. Reading the disk itself happens outside this crate; the rules
//! here decide what may be served and under which name.

use vstd::prelude::*;
use vstd::string::StrSliceExecFns;
use vstd::string::StringExecFns;
use crate::bytesearch::{chars_contain, contains_seq};

verus! {

/// `prefix` with one trailing slash removed.
pub open spec fn strip_trailing_slash(s: Seq<char>) -> Seq<char> {
    if s.len() > 0 && s.last() == '/' {
        s.drop_last()
    } else {
        s
    }
}

/// The characters of a string, in order.
fn str_chars(s: &str) -> (v: Vec<char>)
    ensures
        v@ == s@,
{
    let mut v: Vec<char> = Vec::new();
    let n = s.unicode_len();
    let mut i: usize = 0;
    while i < n
        invariant
            n == s@.len(),
            i <= n,
            v@ == s@.take(i as int),
        decreases n - i,
    {
        v.push(s.get_char(i));
        proof {
            assert(v@ =~= s@.take(i + 1));
        }
        i = i + 1;
    }
    proof {
        assert(s@.take(n as int) =~= s@);
    }
    v
}

/// The mime type served when no table entry fits.
pub fn default_mimetype() -> (r: String)
    ensures
        r@ == "application/octet-stream"@,
{
    "application/octet-stream".to_owned()
}

pub fn default_bool_true() -> (r: bool)
    ensures
        r,
{
    true
}

/// The status code a refused or missing path answers with.
pub fn default_status() -> (r: u16)
    ensures
        r == 404,
{
    404
}

/// By default nothing is hidden.
pub fn default_hide() -> (r: Vec<String>)
    ensures
        r@.len() == 0,
{
    Vec::new()
}

/// The file names that stand in for a directory.
pub fn default_index() -> (r: Vec<String>)
    ensures
        r@.len() == 2,
        r@[0]@ == "index.html"@,
        r@[1]@ == "index.htm"@,
{
    let mut v: Vec<String> = Vec::new();
    v.push("index.html".to_owned());
    v.push("index.htm".to_owned());
    v
}

/// The precompressed variants probed beside a file.
pub fn default_precompressed() -> (r: Vec<String>)
    ensures
        r@.len() == 2,
        r@[0]@ == "gzip"@,
        r@[1]@ == "br"@,
{
    let mut v: Vec<String> = Vec::new();
    v.push("gzip".to_owned());
    v.push("br".to_owned());
    v
}

/// One static-file service: its root directory, URL prefix and rules.
pub struct FileServer {
    /// the directory served from; without one the process's working
    /// directory is used by the surrounding program
    pub root: Option<String>,
    /// the URL prefix this service answers under, without a trailing slash
    pub prefix: String,
    pub default_mimetype: String,
    /// path fragments that are never served
    pub hide: Vec<String>,
    /// file names that stand in for a directory
    pub index: Vec<String>,
    /// the status for refused or missing paths
    pub status: u16,
    /// precompressed variants to probe beside a file
    pub precompressed: Vec<String>,
    pub disable_compress: bool,
    /// whether a directory without an index file may be listed
    pub browse: bool,
}

impl FileServer {
    pub fn new(root: String, prefix: String) -> (r: FileServer)
        ensures
            root@.len() > 0 ==> (r.root matches Some(s) && s@ == root@),
            root@.len() == 0 ==> r.root is None,
            r.prefix@ == strip_trailing_slash(prefix@),
            r.default_mimetype@ == "application/octet-stream"@,
            r.hide@.len() == 0,
            r.index@.len() == 2 && r.index@[0]@ == "index.html"@ && r.index@[1]@
                == "index.htm"@,
            r.status == 404,
            r.precompressed@.len() == 0,
            !r.disable_compress,
            r.browse,
    {
        let has_root = root.as_str().unicode_len() > 0;
        let mut config = FileServer {
            root: if has_root {
                Some(root)
            } else {
                None
            },
            prefix,
            default_mimetype: default_mimetype(),
            hide: Vec::new(),
            index: default_index(),
            status: 404,
            precompressed: Vec::new(),
            disable_compress: false,
            browse: true,
        };
        config.fix_default();
        config
    }

    /// Drop a trailing slash from the prefix, so that prefix and path can
    /// be joined with exactly one slash between them.
    pub fn fix_default(&mut self)
        ensures
            final(self).prefix@ == strip_trailing_slash(old(self).prefix@),
            final(self).root == old(self).root,
            final(self).default_mimetype == old(self).default_mimetype,
            final(self).hide == old(self).hide,
            final(self).index == old(self).index,
            final(self).status == old(self).status,
            final(self).precompressed == old(self).precompressed,
            final(self).disable_compress == old(self).disable_compress,
            final(self).browse == old(self).browse,
    {
        let n = self.prefix.as_str().unicode_len();
        if n > 0 {
            let last = self.prefix.as_str().get_char(n - 1);
            if last == '/' {
                let stripped = self.prefix.as_str().substring_char(0, n - 1).to_owned();
                proof {
                    assert(stripped@ =~= strip_trailing_slash(self.prefix@));
                }
                self.prefix = stripped;
            }
        }
    }

    pub fn set_prefix(&mut self, prefix: String)
        ensures
            final(self).prefix@ == strip_trailing_slash(prefix@),
            final(self).root == old(self).root,
            final(self).default_mimetype == old(self).default_mimetype,
            final(self).hide == old(self).hide,
            final(self).index == old(self).index,
            final(self).status == old(self).status,
            final(self).precompressed == old(self).precompressed,
            final(self).browse == old(self).browse,
            final(self).disable_compress == old(self).disable_compress,
    {
        self.prefix = prefix;
        self.fix_default();
    }

    pub fn set_browse(&mut self, browse: bool)
        ensures
            final(self).browse == browse,
            final(self).prefix == old(self).prefix,
            final(self).root == old(self).root,
            final(self).hide == old(self).hide,
            final(self).disable_compress == old(self).disable_compress,
    {
        self.browse = browse;
    }

    pub fn set_disable_compress(&mut self, disable: bool)
        ensures
            final(self).disable_compress == disable,
            final(self).prefix == old(self).prefix,
            final(self).root == old(self).root,
            final(self).hide == old(self).hide,
            final(self).browse == old(self).browse,
    {
        self.disable_compress = disable;
    }

    /// Whether a path touches any hidden fragment.
    pub fn is_hide_path(&self, path: &String) -> (r: bool)
        ensures
            r == exists|i: int|
                0 <= i < self.hide@.len() && contains_seq(path@, (#[trigger] self.hide@[i])@),
    {
        let path_chars = str_chars(path.as_str());
        let mut i: usize = 0;
        let n = self.hide.len();
        while i < n
            invariant
                n == self.hide@.len(),
                i <= n,
                path_chars@ == path@,
                forall|t: int|
                    0 <= t < i ==> !contains_seq(path@, (#[trigger] self.hide@[t])@),
            decreases n - i,
        {
            let needle = str_chars(self.hide[i].as_str());
            if chars_contain(&path_chars, &needle) {
                return true;
            }
            i = i + 1;
        }
        false
    }

    /// The path below the service prefix, as `/`-rooted href: `Some` when
    /// the request path starts with the prefix, else `None`.
    pub fn href_for(&self, path: &String) -> (r: Option<String>)
        ensures
            match r {
                Some(h) => {
                    &&& path@.len() >= self.prefix@.len()
                    &&& path@.take(self.prefix@.len() as int) == self.prefix@
                    &&& h@ == "/"@ + path@.skip(self.prefix@.len() as int)
                },
                None => !(path@.len() >= self.prefix@.len() && path@.take(
                    self.prefix@.len() as int,
                ) == self.prefix@),
            },
    {
        let np = self.prefix.as_str().unicode_len();
        let n = path.as_str().unicode_len();
        if n < np {
            return None;
        }
        let mut i: usize = 0;
        while i < np
            invariant
                np == self.prefix@.len(),
                n == path@.len(),
                np <= n,
                i <= np,
                forall|t: int| 0 <= t < i ==> path@[t] == self.prefix@[t],
            decreases np - i,
        {
            if path.as_str().get_char(i) != self.prefix.as_str().get_char(i) {
                proof {
                    assert(path@.take(np as int)[i as int] != self.prefix@[i as int]);
                }
                return None;
            }
            i = i + 1;
        }
        proof {
            assert(path@.take(np as int) =~= self.prefix@);
        }
        let tail = path.as_str().substring_char(np, n);
        let slash: String = <String as StringExecFns>::from_str("/");
        let href = slash.concat(tail);
        Some(href)
    }
}

} // verus!
