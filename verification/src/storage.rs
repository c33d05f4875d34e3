use vstd::prelude::*;

verus! {

use crate::models::ApplicationConfig;
use vstd::string::{StrSliceExecFns, StringExecFns};

/// First index at or after `i` where `c` occurs, or the length when it does
/// not.
pub open spec fn find_char(s: Seq<char>, c: char, i: int) -> int
    decreases s.len() - i,
        when 0 <= i <= s.len()
{
    if i < s.len() && s[i] != c {
        find_char(s, c, i + 1)
    } else {
        i
    }
}

/// First index at or after `i` holding something other than `c`.
pub open spec fn skip_char(s: Seq<char>, c: char, i: int) -> int
    decreases s.len() - i,
        when 0 <= i <= s.len()
{
    if i < s.len() && s[i] == c {
        skip_char(s, c, i + 1)
    } else {
        i
    }
}

/// Index just past the last `c`, or 0 when there is none.
pub open spec fn after_last_char(s: Seq<char>, c: char) -> int
    decreases s.len(),
{
    if s.len() == 0 {
        0
    } else if s.last() == c {
        s.len() as int
    } else {
        after_last_char(s.drop_last(), c)
    }
}

/// The object-store URI without its scheme prefix.
pub open spec fn s3_strip_scheme(u: Seq<char>) -> Seq<char> {
    if u.len() >= 5 && u.take(5) == "s3://"@ {
        u.skip(5)
    } else {
        u
    }
}

/// Bucket and key read from a URI: the bucket is everything before the first
/// slash, the key everything after it, with further leading slashes removed.
pub open spec fn s3_new_spec(u: Seq<char>) -> (Seq<char>, Seq<char>) {
    let rest = s3_strip_scheme(u);
    let cut = find_char(rest, '/', 0);
    if cut < rest.len() {
        let tail = rest.skip(cut + 1);
        (rest.take(cut), tail.skip(skip_char(tail, '/', 0)))
    } else {
        (rest, Seq::empty())
    }
}

/// The key of a path extended by a sub-path: leading slashes of the sub-path
/// are dropped, and exactly one separator stands between the parts.
pub open spec fn s3_join_key(key: Seq<char>, sub: Seq<char>) -> Seq<char> {
    let cleaned = sub.skip(skip_char(sub, '/', 0));
    if key.len() == 0 {
        cleaned
    } else if key.last() == '/' {
        key + cleaned
    } else {
        key + seq!['/'] + cleaned
    }
}

/// The URI text of a path.
pub open spec fn s3_uri_spec(bucket: Seq<char>, key: Seq<char>) -> Seq<char> {
    if key.len() == 0 {
        "s3://"@ + bucket
    } else {
        "s3://"@ + bucket + seq!['/'] + key
    }
}

/// A location in the object store: a bucket and a key below it.
#[derive(Debug)]
pub struct S3Path {
    pub bucket: String,
    pub key: String,
}

impl Clone for S3Path {
    fn clone(&self) -> (r: S3Path)
        ensures
            r.bucket@ == self.bucket@,
            r.key@ == self.key@,
    {
        S3Path { bucket: self.bucket.clone(), key: self.key.clone() }
    }
}

impl PartialEq for S3Path {
    fn eq(&self, other: &S3Path) -> (r: bool) {
        self.bucket == other.bucket && self.key == other.key
    }
}

impl Eq for S3Path {

}

impl vstd::std_specs::cmp::PartialEqSpecImpl for S3Path {
    open spec fn obeys_eq_spec() -> bool {
        true
    }

    open spec fn eq_spec(&self, other: &S3Path) -> bool {
        self.bucket@ == other.bucket@ && self.key@ == other.key@
    }
}

fn find_char_exec(s: &str, len: usize, c: char, i: usize) -> (r: usize)
    requires
        len == s@.len(),
        i <= len,
    ensures
        r == find_char(s@, c, i as int),
        i <= r <= len,
    decreases len - i,
{
    if i < len {
        if s.get_char(i) != c {
            return find_char_exec(s, len, c, i + 1);
        }
    }
    i
}

fn skip_char_exec(s: &str, len: usize, c: char, i: usize) -> (r: usize)
    requires
        len == s@.len(),
        i <= len,
    ensures
        r == skip_char(s@, c, i as int),
        i <= r <= len,
    decreases len - i,
{
    if i < len {
        if s.get_char(i) == c {
            return skip_char_exec(s, len, c, i + 1);
        }
    }
    i
}

fn after_last_char_exec(s: &str, len: usize, c: char) -> (r: usize)
    requires
        len == s@.len(),
    ensures
        r == after_last_char(s@, c),
        r <= len,
{
    let mut i: usize = len;
    proof {
        assert(s@.take(len as int) =~= s@);
    }
    loop
        invariant
            len == s@.len(),
            0 <= i <= len,
            after_last_char(s@.take(i as int), c) == after_last_char(s@, c),
        decreases i,
    {
        if i == 0 {
            proof {
                assert(s@.take(0) =~= Seq::<char>::empty());
            }
            return 0;
        }
        let ch = s.get_char(i - 1);
        proof {
            assert(s@.take(i as int).last() == s@[i as int - 1]);
            assert(s@.take(i as int).drop_last() =~= s@.take(i as int - 1));
        }
        if ch == c {
            return i;
        }
        i = i - 1;
    }
}

impl S3Path {
    /// Reads a path from a URI like `s3://my-bucket/path/to/file`; a missing
    /// scheme prefix is tolerated.
    pub fn new(uri: &str) -> (r: S3Path)
        ensures
            (r.bucket@, r.key@) == s3_new_spec(uri@),
    {
        let len: usize = uri.unicode_len();
        proof {
            reveal_strlit("s3://");
        }
        let rest: &str = if len >= 5 && uri.get_char(0) == 's' && uri.get_char(1) == '3'
            && uri.get_char(2) == ':' && uri.get_char(3) == '/' && uri.get_char(4) == '/' {
            proof {
                assert(uri@.take(5) =~= "s3://"@);
            }
            uri.substring_char(5, len)
        } else {
            proof {
                if uri@.len() >= 5 && uri@.take(5) == "s3://"@ {
                    assert(uri@[0] == "s3://"@[0]);
                    assert(uri@[1] == "s3://"@[1]);
                    assert(uri@[2] == "s3://"@[2]);
                    assert(uri@[3] == "s3://"@[3]);
                    assert(uri@[4] == "s3://"@[4]);
                }
            }
            uri
        };
        let rest_len: usize = rest.unicode_len();
        let cut = find_char_exec(rest, rest_len, '/', 0);
        if cut < rest_len {
            let bucket = rest.substring_char(0, cut);
            let tail = rest.substring_char(cut + 1, rest_len);
            let tail_len: usize = tail.unicode_len();
            let start = skip_char_exec(tail, tail_len, '/', 0);
            let key = tail.substring_char(start, tail_len);
            proof {
                assert(rest@.take(cut as int) == s3_new_spec(uri@).0);
                assert(tail@.skip(start as int) =~= s3_new_spec(uri@).1);
            }
            S3Path { bucket: String::from_str(bucket), key: String::from_str(key) }
        } else {
            proof {
                assert(rest@ == s3_new_spec(uri@).0);
                assert(Seq::<char>::empty() =~= s3_new_spec(uri@).1);
            }
            S3Path { bucket: String::from_str(rest), key: String::new() }
        }
    }

    /// A path below this one: the sub-path is appended to the key with
    /// exactly one separator.
    pub fn join(&self, subpath: &str) -> (r: S3Path)
        ensures
            r.bucket@ == self.bucket@,
            r.key@ == s3_join_key(self.key@, subpath@),
    {
        let sub_len: usize = subpath.unicode_len();
        let start = skip_char_exec(subpath, sub_len, '/', 0);
        let cleaned = subpath.substring_char(start, sub_len);
        let key_len: usize = self.key.as_str().unicode_len();
        let new_key: String = if key_len == 0 {
            String::from_str(cleaned)
        } else if self.key.as_str().get_char(key_len - 1) == '/' {
            proof {
                assert(self.key@.last() == self.key@[key_len as int - 1]);
            }
            let mut out = self.key.clone();
            out.append(cleaned);
            out
        } else {
            proof {
                assert(self.key@.last() == self.key@[key_len as int - 1]);
            }
            let mut out = self.key.clone();
            out.append("/");
            out.append(cleaned);
            proof {
                reveal_strlit("/");
                assert(out@ =~= self.key@ + seq!['/'] + subpath@.skip(
                    skip_char(subpath@, '/', 0),
                ));
            }
            out
        };
        S3Path { bucket: self.bucket.clone(), key: new_key }
    }

    /// The `s3://bucket/key` text of this path.
    pub fn to_uri(&self) -> (r: String)
        ensures
            r@ == s3_uri_spec(self.bucket@, self.key@),
    {
        let mut out = String::from_str("s3://");
        out.append(self.bucket.as_str());
        if self.key.as_str().unicode_len() > 0 {
            out.append("/");
            out.append(self.key.as_str());
            proof {
                reveal_strlit("/");
                assert(out@ =~= "s3://"@ + self.bucket@ + seq!['/'] + self.key@);
            }
        }
        out
    }

    /// The last segment of the key: what follows the final separator, empty
    /// when the key ends in one, absent when the key is empty.
    pub fn filename<'a>(&'a self) -> (r: Option<&'a str>)
        ensures
            match r {
                Some(f) => self.key@.len() > 0 && f@ == self.key@.skip(
                    after_last_char(self.key@, '/'),
                ),
                None => self.key@.len() == 0,
            },
    {
        let key_len: usize = self.key.as_str().unicode_len();
        if key_len == 0 {
            return None;
        }
        let start = after_last_char_exec(self.key.as_str(), key_len, '/');
        Some(self.key.as_str().substring_char(start, key_len))
    }

    /// The path one level up: the key with its last segment removed, absent
    /// when the key is empty.
    pub fn parent(&self) -> (r: Option<S3Path>)
        ensures
            match r {
                Some(p) => {
                    &&& self.key@.len() > 0
                    &&& p.bucket@ == self.bucket@
                    &&& {
                        let cut = after_last_char(self.key@, '/');
                        p.key@ == if cut > 0 {
                            self.key@.take(cut - 1)
                        } else {
                            Seq::<char>::empty()
                        }
                    }
                },
                None => self.key@.len() == 0,
            },
    {
        let key_len: usize = self.key.as_str().unicode_len();
        if key_len == 0 {
            return None;
        }
        let cut = after_last_char_exec(self.key.as_str(), key_len, '/');
        let parent_key: &str = if cut > 0 {
            self.key.as_str().substring_char(0, cut - 1)
        } else {
            self.key.as_str().substring_char(0, 0)
        };
        proof {
            if after_last_char(self.key@, '/') == 0 {
                assert(self.key@.subrange(0, 0) =~= Seq::<char>::empty());
            }
        }
        Some(S3Path { bucket: self.bucket.clone(), key: String::from_str(parent_key) })
    }
}

/// The object-store facade: path helpers derived from the application's
/// storage configuration. Opening a client is transport work and stays with
/// the caller.
pub struct BlobStorage {
    pub config: ApplicationConfig,
}

/// Why the store could not be addressed.
#[derive(Debug)]
pub enum StorageError {
    NoStorageConfig,
}

impl BlobStorage {
    pub fn new(config: ApplicationConfig) -> (r: BlobStorage)
        ensures
            r.config == config,
    {
        BlobStorage { config }
    }

    /// The configured root of the system's storage area, when storage is
    /// configured at all.
    pub fn get_system_path(&self) -> (r: Option<S3Path>)
        ensures
            match r {
                Some(p) => match self.config.storage {
                    Some(st) => (p.bucket@, p.key@) == s3_new_spec(st.url@),
                    None => false,
                },
                None => self.config.storage is None,
            },
    {
        match &self.config.storage {
            Some(st) => Some(S3Path::new(st.url.as_str())),
            None => None,
        }
    }

    /// The storage area of this application: the system path extended by the
    /// application id.
    pub fn get_application_path(&self) -> (r: Option<S3Path>)
        ensures
            match r {
                Some(p) => match self.config.storage {
                    Some(st) => {
                        let base = s3_new_spec(st.url@);
                        p.bucket@ == base.0 && p.key@ == s3_join_key(
                            base.1,
                            self.config.application_info.application_id@,
                        )
                    },
                    None => false,
                },
                None => self.config.storage is None,
            },
    {
        match self.get_system_path() {
            Some(path) => Some(path.join(self.config.application_info.application_id.as_str())),
            None => None,
        }
    }

    /// The storage area of this deployment: the system path extended by the
    /// deployed-application id.
    pub fn get_deployed_application_path(&self) -> (r: Option<S3Path>)
        ensures
            match r {
                Some(p) => match self.config.storage {
                    Some(st) => {
                        let base = s3_new_spec(st.url@);
                        p.bucket@ == base.0 && p.key@ == s3_join_key(
                            base.1,
                            self.config.application_info.deployed_application_id@,
                        )
                    },
                    None => false,
                },
                None => self.config.storage is None,
            },
    {
        match self.get_system_path() {
            Some(path) => Some(
                path.join(self.config.application_info.deployed_application_id.as_str()),
            ),
            None => None,
        }
    }
}

} // verus!
