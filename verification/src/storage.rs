//! Where stored images go: the images directory under the assets
//! directory, random file names, and the relative paths kept in the
//! database in place of the image bytes.
use vstd::prelude::*;
use crate::text::push_str;

verus! {

/// A lowercase hexadecimal digit.
pub open spec fn is_lower_hex(c: char) -> bool {
    ('0' <= c && c <= '9') || ('a' <= c && c <= 'f')
}

/// The hyphenated text of a random (version 4, RFC variant) UUID:
/// 36 characters, hyphens at 8, 13, 18 and 23, lowercase hexadecimal digits
/// elsewhere, the version digit `4` and a variant digit among `8`, `9`,
/// `a`, `b`.
pub open spec fn is_uuid_v4_text(s: Seq<char>) -> bool {
    &&& s.len() == 36
    &&& forall|i: int|
        0 <= i < 36 ==> if i == 8 || i == 13 || i == 18 || i == 23 {
            #[trigger] s[i] == '-'
        } else {
            is_lower_hex(s[i])
        }
    &&& s[14] == '4'
    &&& (s[19] == '8' || s[19] == '9' || s[19] == 'a' || s[19] == 'b')
}

/// `Uuid::new_v4().to_string()`: a fresh random UUID in hyphenated
/// lowercase form. The contract states its shape, which the version 4
/// layout and the hyphenated formatting fix, and nothing of its random
/// digits.
#[verifier::external_body]
pub(crate) fn new_uuid() -> (u: String)
    ensures
        is_uuid_v4_text(u@),
{
    uuid::Uuid::new_v4().to_string()
}

/// `part` joined under the directory `base`, with one `/` between them, as
/// `Path::join` does on Unix: an absolute `part` (one that starts with `/`)
/// replaces `base`.
pub open spec fn path_join(base: Seq<char>, part: Seq<char>) -> Seq<char> {
    if part.len() > 0 && part[0] == '/' {
        part
    } else if base.len() == 0 {
        part
    } else if base.last() == '/' {
        base + part
    } else {
        base + "/"@ + part
    }
}

/// `part` joined under the directory `base`.
pub fn join_path(base: &str, part: &str) -> (p: String)
    ensures
        p@ == path_join(base@, part@),
{
    let part_chars = crate::text::chars_of(part);
    if part_chars.len() > 0 && part_chars[0] == '/' {
        return String::from_str(part);
    }
    let mut p = String::from_str(base);
    if base.is_empty() {
        push_str(&mut p, part);
        return p;
    }
    let chars = crate::text::chars_of(base);
    if chars[chars.len() - 1] != '/' {
        push_str(&mut p, "/");
    }
    push_str(&mut p, part);
    p
}

/// The file name of a new image: the prefix, `_`, the UUID and `.bin`.
pub open spec fn image_file_name(prefix: Seq<char>, uuid: Seq<char>) -> Seq<char> {
    prefix + "_"@ + uuid + ".bin"@
}

/// The file name of a new image with the given prefix and a fresh UUID.
pub fn new_image_file_name(prefix: &str) -> (name: String)
    ensures
        exists|u: Seq<char>| is_uuid_v4_text(u) && name@ == image_file_name(prefix@, u),
{
    let u = new_uuid();
    let mut name = String::from_str(prefix);
    push_str(&mut name, "_");
    push_str(&mut name, u.as_str());
    push_str(&mut name, ".bin");
    assert(name@ == image_file_name(prefix@, u@));
    name
}

/// The path, relative to the assets directory, of an image file.
pub fn relative_image_path(file_name: &str) -> (p: String)
    ensures
        p@ == "images/"@ + file_name@,
{
    let mut p = String::from_str("images/");
    push_str(&mut p, file_name);
    p
}

/// Image files under an assets directory.
pub struct StorageService {
    assets_dir: String,
    images_dir: String,
}

impl StorageService {
    /// The assets directory.
    pub closed spec fn assets(&self) -> Seq<char> {
        self.assets_dir@
    }

    /// The images directory.
    pub closed spec fn images(&self) -> Seq<char> {
        self.images_dir@
    }

    /// The storage under `assets_dir`, whose images live in its `images`
    /// subdirectory. Creating that directory is the caller's part.
    pub fn new(assets_dir: String) -> (s: StorageService)
        ensures
            s.assets() == assets_dir@,
            s.images() == path_join(assets_dir@, "images"@),
    {
        let images_dir = join_path(assets_dir.as_str(), "images");
        StorageService { assets_dir, images_dir }
    }

    /// The assets directory.
    pub fn assets_dir(&self) -> (d: &str)
        ensures
            d@ == self.assets(),
    {
        self.assets_dir.as_str()
    }

    /// The images directory.
    pub fn images_dir(&self) -> (d: &str)
        ensures
            d@ == self.images(),
    {
        self.images_dir.as_str()
    }

    /// Where a file named `file_name` is written in the images directory.
    pub fn image_file_path(&self, file_name: &str) -> (p: String)
        ensures
            p@ == path_join(self.images(), file_name@),
    {
        join_path(self.images_dir.as_str(), file_name)
    }

    /// Where the image at a path relative to the assets directory lives.
    pub fn resolve(&self, relative_path: &str) -> (p: String)
        ensures
            p@ == path_join(self.assets(), relative_path@),
    {
        join_path(self.assets_dir.as_str(), relative_path)
    }
}

/// The directory of the app's saved state under a base directory.
pub fn state_directory(base_dir: &str) -> (d: String)
    ensures
        d@ == path_join(base_dir@, ".shusei"@),
{
    join_path(base_dir, ".shusei")
}

/// The file of the app's saved state in its directory.
pub fn state_file_path(state_dir: &str) -> (p: String)
    ensures
        p@ == path_join(state_dir@, "app_state.json"@),
{
    join_path(state_dir, "app_state.json")
}

/// An image saved under a name from `new_image_file_name` is found again
/// through its relative path: resolving `images/<name>` under the assets
/// directory gives the file's path in the images directory, for an assets
/// directory without a trailing `/` and a name that is not an absolute
/// path.
pub proof fn lemma_saved_image_resolves(assets: Seq<char>, name: Seq<char>)
    requires
        assets.len() > 0,
        assets.last() != '/',
        name.len() == 0 || name[0] != '/',
    ensures
        path_join(assets, "images/"@ + name) == path_join(path_join(assets, "images"@), name),
{
    reveal_strlit("images/");
    reveal_strlit("images");
    reveal_strlit("/");
    let dir = assets + "/"@ + "images"@;
    assert(path_join(assets, "images"@) == dir);
    assert(dir.len() > 0 && dir.last() == 's');
    assert(path_join(dir, name) == dir + "/"@ + name);
    assert(path_join(assets, "images/"@ + name) == assets + "/"@ + ("images/"@ + name));
    assert(assets + "/"@ + ("images/"@ + name) =~= dir + "/"@ + name);
}

} // verus!
