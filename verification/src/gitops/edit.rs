//! Rewriting of container images in Kubernetes manifests.

use vstd::prelude::*;
use crate::models::{opt_str, Workload};
use crate::text::{contains, contains_str};

verus! {

/// The part of `s` before the first `c`, or all of `s` when there is no `c`
/// (the first item of `str::split`).
pub open spec fn before_first(s: Seq<char>, c: char) -> Seq<char>
    decreases s.len(),
{
    if s.len() == 0 {
        s
    } else if s[0] == c {
        Seq::empty()
    } else {
        seq![s[0]] + before_first(s.drop_first(), c)
    }
}

proof fn lemma_before_first(s: Seq<char>, c: char, i: int)
    requires
        0 <= i <= s.len(),
        forall|k: int| 0 <= k < i ==> #[trigger] s[k] != c,
        i == s.len() || s[i] == c,
    ensures
        before_first(s, c) == s.take(i),
    decreases s.len(),
{
    if s.len() == 0 {
        assert(s.take(i) =~= s);
    } else if i == 0 {
        assert(s.take(0) =~= Seq::<char>::empty());
    } else {
        let t = s.drop_first();
        assert forall|k: int| 0 <= k < i - 1 implies #[trigger] t[k] != c by {
            assert(t[k] == s[k + 1]);
        }
        if i < s.len() {
            assert(t[i - 1] == s[i]);
        }
        lemma_before_first(t, c, i - 1);
        assert(seq![s[0]] + t.take(i - 1) =~= s.take(i));
    }
}

/// The image of `image` without its tag: everything before the first `:`.
pub fn base_image(image: &str) -> (r: String)
    ensures
        r@ == before_first(image@, ':'),
{
    let n = image.unicode_len();
    let mut i: usize = 0;
    while i < n && image.get_char(i) != ':'
        invariant
            i <= n,
            n == image@.len(),
            forall|k: int| 0 <= k < i ==> #[trigger] image@[k] != ':',
        decreases n - i,
    {
        i = i + 1;
    }
    proof {
        lemma_before_first(image@, ':', i as int);
    }
    String::from_str(image.substring_char(0, i))
}

/// The image reference that `base` is updated to: `base:version`.
pub open spec fn tagged_image(base: Seq<char>, version: Seq<char>) -> Seq<char> {
    base + ":"@ + version
}

/// Appends `:version` to `base`.
pub fn new_image(base: &str, version: &str) -> (r: String)
    ensures
        r@ == tagged_image(base@, version@),
{
    let mut r = String::from_str(base);
    r.append(":");
    r.append(version);
    r
}

/// `PathBuf::push` on Unix: an absolute `part` replaces `base`; otherwise
/// `part` is appended, after a `/` unless `base` is empty or ends in one.
pub open spec fn join_path(base: Seq<char>, part: Seq<char>) -> Seq<char> {
    if part.len() > 0 && part[0] == '/' {
        part
    } else if base.len() > 0 && base.last() != '/' {
        base + "/"@ + part
    } else {
        base + part
    }
}

/// Joins two paths as `Path::join` does on Unix.
pub fn join(base: &str, part: &str) -> (r: String)
    ensures
        r@ == join_path(base@, part@),
{
    let pn = part.unicode_len();
    if pn > 0 && part.get_char(0) == '/' {
        return String::from_str(part);
    }
    let bn = base.unicode_len();
    let mut r = String::from_str(base);
    if bn > 0 && base.get_char(bn - 1) != '/' {
        r.append("/");
    }
    r.append(part);
    r
}

/// The directory of the repository, relative to its root, that holds the
/// manifests of `w`: its GitOps directory when one is set and not empty,
/// else its name.
pub open spec fn manifest_dir(w: Workload) -> Seq<char> {
    match w.git_directory {
        Some(d) => if d@.len() > 0 { d@ } else { w.name@ },
        None => w.name@,
    }
}

/// The directory searched for manifests of `workload` in the clone at
/// `local_path`.
pub fn search_path(local_path: &str, workload: &Workload) -> (r: String)
    ensures
        r@ == join_path(local_path@, manifest_dir(*workload)),
{
    match &workload.git_directory {
        Some(d) => {
            if d.as_str().unicode_len() > 0 {
                join(local_path, d.as_str())
            } else {
                join(local_path, workload.name.as_str())
            }
        },
        None => join(local_path, workload.name.as_str()),
    }
}

/// The image a container gets: `new_image` when its current image (none
/// counting as empty) contains `base`, else its current one.
pub open spec fn retargeted(image: Option<Seq<char>>, base: Seq<char>, new_image: Seq<char>) -> Option<Seq<char>> {
    let current = match image {
        Some(i) => i,
        None => Seq::empty(),
    };
    if contains(current, base) {
        Some(new_image)
    } else {
        image
    }
}

/// Some container's image (none counting as empty) contains `base`.
pub open spec fn any_matches(images: Seq<Option<Seq<char>>>, base: Seq<char>) -> bool {
    exists|i: int| 0 <= i < images.len() && contains(
        match #[trigger] images[i] {
            Some(s) => s,
            None => Seq::empty(),
        },
        base,
    )
}

/// The views of optional strings.
pub open spec fn opt_strs(v: Seq<Option<String>>) -> Seq<Option<Seq<char>>> {
    v.map_values(|o: Option<String>| opt_str(o))
}

/// Points every container whose image contains `base` at `new_image`, and
/// tells whether any did.
pub fn retarget_images(images: Vec<Option<String>>, base: &str, new_image: &str) -> (r: (Vec<Option<String>>, bool))
    ensures
        r.0@.len() == images@.len(),
        forall|i: int| 0 <= i < images@.len() ==> #[trigger] opt_str(r.0@[i]) == retargeted(
            opt_str(images@[i]),
            base@,
            new_image@,
        ),
        r.1 == any_matches(opt_strs(images@), base@),
{
    let ghost orig = images@;
    let mut out: Vec<Option<String>> = Vec::new();
    let mut updated = false;
    for image in it: images.into_iter()
        invariant
            it.seq() == orig,
            out@.len() == it.index(),
            forall|i: int| 0 <= i < it.index() ==> #[trigger] opt_str(out@[i]) == retargeted(
                opt_str(orig[i]),
                base@,
                new_image@,
            ),
            updated == any_matches(opt_strs(orig.take(it.index() as int)), base@),
    {
        let ghost i = it.index();
        assert(image == orig[i]);
        proof {
            reveal_strlit("");
            assert(""@ =~= Seq::<char>::empty());
        }
        let hit = match &image {
            Some(s) => contains_str(s.as_str(), base),
            None => contains_str("", base),
        };
        let ghost cur = match image { Some(ref s) => s@, None => Seq::<char>::empty() };
        assert(hit == contains(cur, base@));
        if hit {
            out.push(Some(String::from_str(new_image)));
        } else {
            out.push(image);
        }
        proof {
            let pre = opt_strs(orig.take(i as int));
            let post = opt_strs(orig.take(i + 1));
            assert(post =~= pre.push(opt_str(orig[i])));
            if hit {
                assert(post[i as int] == opt_str(orig[i]));
                assert(any_matches(post, base@));
            } else {
                if any_matches(post, base@) {
                    let k = choose|k: int| 0 <= k < post.len() && contains(
                        match #[trigger] post[k] {
                            Some(s) => s,
                            None => Seq::empty(),
                        },
                        base@,
                    );
                    if k < i {
                        assert(post[k] == pre[k]);
                    }
                }
                if any_matches(pre, base@) {
                    let k = choose|k: int| 0 <= k < pre.len() && contains(
                        match #[trigger] pre[k] {
                            Some(s) => s,
                            None => Seq::empty(),
                        },
                        base@,
                    );
                    assert(post[k] == pre[k]);
                }
            }
            assert((updated || hit) == any_matches(post, base@));
        }
        updated = updated || hit;
    }
    assert(orig.take(orig.len() as int) =~= orig);
    (out, updated)
}

/// The last position of `c` in `s`, or -1.
pub open spec fn last_index_of(s: Seq<char>, c: char) -> int
    decreases s.len(),
{
    if s.len() == 0 {
        -1
    } else if s.last() == c {
        s.len() - 1
    } else {
        last_index_of(s.drop_last(), c)
    }
}

/// `Path::extension` of a file name: what follows its last `.`, unless there
/// is none, the name starts with its only `.`, or the name is `..`.
pub open spec fn file_extension(name: Seq<char>) -> Option<Seq<char>> {
    let i = last_index_of(name, '.');
    if name == ".."@ || i <= 0 {
        None
    } else {
        Some(name.skip(i + 1))
    }
}

proof fn lemma_last_index_of(s: Seq<char>, c: char, j: int)
    requires
        -1 <= j < s.len(),
        forall|k: int| j < k < s.len() ==> #[trigger] s[k] != c,
        j == -1 || s[j] == c,
    ensures
        last_index_of(s, c) == j,
    decreases s.len(),
{
    if s.len() > 0 && j < s.len() - 1 {
        let t = s.drop_last();
        assert forall|k: int| j < k < t.len() implies #[trigger] t[k] != c by {
            assert(t[k] == s[k]);
        }
        assert(s[s.len() - 1] != c);
        if j >= 0 {
            assert(t[j] == s[j]);
        }
        lemma_last_index_of(t, c, j);
    }
}

/// Whether a file with this name is a YAML manifest (extension `yaml`).
pub fn has_yaml_extension(name: &str) -> (b: bool)
    ensures
        b == (file_extension(name@) == Some("yaml"@)),
{
    proof {
        reveal_strlit("yaml");
        reveal_strlit("..");
    }
    let n = name.unicode_len();
    let mut j: usize = n;
    while j > 0 && name.get_char(j - 1) != '.'
        invariant
            j <= n,
            n == name@.len(),
            forall|k: int| j <= k < n ==> #[trigger] name@[k] != '.',
        decreases j,
    {
        j = j - 1;
    }
    proof {
        lemma_last_index_of(name@, '.', j - 1);
    }
    if j <= 1 {
        return false;
    }
    if n == 2 && name.get_char(0) == '.' && name.get_char(1) == '.' {
        assert(name@ =~= ".."@);
        return false;
    }
    assert(name@ != ".."@) by {
        if name@ == ".."@ {
            assert(name@[0] == '.' && name@[1] == '.');
        }
    }
    let ext = name.substring_char(j, n);
    assert(ext@ =~= name@.skip(j as int));
    crate::text::str_equals(ext, "yaml")
}

} // verus!
