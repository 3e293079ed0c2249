use vstd::prelude::*;
use std::marker::PhantomData;

verus! {

/// The kinds of baked asset, each stored under its own file extension.
#[derive(Clone, Copy, Debug, PartialEq, Eq, Structural, Hash)]
pub enum AssetType {
    Mesh,
    Texture,
    Material,
    MeshCollection,
}

/// The file extension of each asset kind.
pub open spec fn type_extension(ty: AssetType) -> Seq<char> {
    match ty {
        AssetType::Mesh => seq!['m', 'e', 's', 'h'],
        AssetType::Texture => seq!['t', 'e', 'x'],
        AssetType::Material => seq!['m', 'a', 't'],
        AssetType::MeshCollection => seq!['m', 's', 'c', 'l'],
    }
}

/// The asset kind stored under extension `ext`, if any.
pub open spec fn extension_type(ext: Seq<char>) -> Option<AssetType> {
    if ext == type_extension(AssetType::Mesh) {
        Some(AssetType::Mesh)
    } else if ext == type_extension(AssetType::Texture) {
        Some(AssetType::Texture)
    } else if ext == type_extension(AssetType::Material) {
        Some(AssetType::Material)
    } else if ext == type_extension(AssetType::MeshCollection) {
        Some(AssetType::MeshCollection)
    } else {
        None
    }
}

/// What `Path::extension` gives for a path: the part of the last component
/// after its last dot, if there is one.
pub uninterp spec fn path_extension_of(path: Seq<char>) -> Option<Seq<char>>;

/// What `str::to_lowercase` gives for a string.
pub uninterp spec fn lower_of(s: Seq<char>) -> Seq<char>;

/// The asset kind that a path names: its extension, lower-cased, read as
/// an asset extension.
pub open spec fn path_type(path: Seq<char>) -> Option<AssetType> {
    match path_extension_of(path) {
        Some(ext) => extension_type(lower_of(ext)),
        None => None,
    }
}

/// Relies on `std::path::Path::extension` (read back as UTF-8, which holds
/// for a path made from a `str`): the extension of the last component.
#[verifier::external_body]
fn path_extension(path: &str) -> (r: Option<String>)
    ensures
        match r {
            Some(e) => path_extension_of(path@) == Some(e@),
            None => path_extension_of(path@) is None,
        },
{
    let ext = std::path::Path::new(path).extension()?;
    ext.to_str().map(String::from)
}

/// Relies on `str::to_lowercase`: the result depends on the characters alone.
#[verifier::external_body]
fn lowercase(s: &str) -> (r: String)
    ensures
        r@ == lower_of(s@),
{
    s.to_lowercase()
}

fn is_extension(ext: &String, wanted: &str) -> (r: bool)
    ensures
        r == (ext@ == wanted@),
{
    let w = String::from_str(wanted);
    ext.eq(&w)
}

fn asset_type_extension(ty: AssetType) -> (r: &'static str)
    ensures
        r@ == type_extension(ty),
{
    proof {
        reveal_strlit("mesh");
        reveal_strlit("tex");
        reveal_strlit("mat");
        reveal_strlit("mscl");
    }
    let r = match ty {
        AssetType::Mesh => "mesh",
        AssetType::Texture => "tex",
        AssetType::Material => "mat",
        AssetType::MeshCollection => "mscl",
    };
    assert(r@ =~= type_extension(ty));
    r
}

fn extension_asset_type(extension: &String) -> (r: Option<AssetType>)
    ensures
        r == extension_type(extension@),
{
    if is_extension(extension, asset_type_extension(AssetType::Mesh)) {
        Some(AssetType::Mesh)
    } else if is_extension(extension, asset_type_extension(AssetType::Texture)) {
        Some(AssetType::Texture)
    } else if is_extension(extension, asset_type_extension(AssetType::Material)) {
        Some(AssetType::Material)
    } else if is_extension(extension, asset_type_extension(AssetType::MeshCollection)) {
        Some(AssetType::MeshCollection)
    } else {
        None
    }
}

impl AssetType {
    /// The file extension that assets of this kind are stored under.
    pub fn extension(&self) -> (r: &str)
        ensures
            r@ == type_extension(*self),
    {
        asset_type_extension(*self)
    }
}

/// Location of an asset, relative to the asset directories.
#[derive(Clone, Debug, PartialEq, Eq, Hash)]
pub struct AssetUrl {
    path: String,
}

impl AssetUrl {
    pub closed spec fn spec_path(&self) -> Seq<char> {
        self.path@
    }

    pub fn new(path: &str) -> (r: Self)
        ensures
            r.spec_path() == path@,
    {
        AssetUrl { path: path.to_owned() }
    }

    /// The empty location, which names no asset.
    pub fn invalid() -> (r: Self)
        ensures
            r.spec_path() == Seq::<char>::empty(),
    {
        AssetUrl { path: String::new() }
    }

    pub fn path(&self) -> (r: &str)
        ensures
            r@ == self.spec_path(),
    {
        self.path.as_str()
    }

    /// The asset kind that the location's extension names; only for a
    /// location whose extension is one of the asset extensions.
    pub fn ty(&self) -> (r: AssetType)
        requires
            path_type(self.spec_path()) is Some,
        ensures
            Some(r) == path_type(self.spec_path()),
    {
        let ext = path_extension(self.path.as_str());
        let ext = ext.unwrap();
        let lower = lowercase(ext.as_str());
        extension_asset_type(&lower).unwrap()
    }

    /// The asset kind that the location's extension names, or `None` when
    /// it has no extension or one that is no asset extension.
    pub fn try_ty(&self) -> (r: Option<AssetType>)
        ensures
            r == path_type(self.spec_path()),
    {
        let ext = match path_extension(self.path.as_str()) {
            Some(e) => e,
            None => {
                return None;
            },
        };
        let lower = lowercase(ext.as_str());
        match extension_asset_type(&lower) {
            Some(_) => Some(self.ty()),
            None => None,
        }
    }
}

/// A typed reference to an asset by its location.
pub struct AssetHandle<A> {
    url: AssetUrl,
    _marker: PhantomData<A>,
}

impl<A> AssetHandle<A> {
    pub closed spec fn spec_url(&self) -> AssetUrl {
        self.url
    }

    /// A handle that refers to no asset.
    pub fn invalid() -> (r: Self)
        ensures
            r.spec_url().spec_path() == Seq::<char>::empty(),
    {
        AssetHandle { url: AssetUrl::invalid(), _marker: PhantomData }
    }

    pub fn new(url: AssetUrl) -> (r: Self)
        ensures
            r.spec_url() == url,
    {
        AssetHandle { url, _marker: PhantomData }
    }

    pub fn url(&self) -> (r: &AssetUrl)
        ensures
            *r == self.spec_url(),
    {
        &self.url
    }
}

/// A raw resource as loaded from the content directory.
pub trait RawResource: Sized {
    /// Where the resource was loaded from.
    fn load_path(&self) -> &str;
}

/// A request to load a raw resource, by its path inside the content
/// directory.
#[derive(Clone, Debug)]
pub struct RawResourceLoadRequest {
    path: String,
}

impl RawResourceLoadRequest {
    pub closed spec fn spec_path(&self) -> Seq<char> {
        self.path@
    }

    pub fn new(path: &str) -> (r: Self)
        ensures
            r.spec_path() == path@,
    {
        RawResourceLoadRequest { path: path.to_owned() }
    }

    pub fn path(&self) -> (r: &str)
        ensures
            r@ == self.spec_path(),
    {
        self.path.as_str()
    }
}

/// A request to load a baked asset by its location.
#[derive(Clone, Debug)]
pub struct AssetLoadRequest {
    url: AssetUrl,
}

impl AssetLoadRequest {
    pub closed spec fn spec_url(&self) -> AssetUrl {
        self.url
    }

    pub fn new(url: AssetUrl) -> (r: Self)
        ensures
            r.spec_url() == url,
    {
        AssetLoadRequest { url }
    }

    pub fn url(&self) -> (r: &AssetUrl)
        ensures
            *r == self.spec_url(),
    {
        &self.url
    }
}

} // verus!
