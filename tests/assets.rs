use zenith_task::asset::{AssetHandle, AssetLoadRequest, AssetType, AssetUrl, RawResourceLoadRequest};
use zenith_task::rendergraph::{ComputePipelineDescriptor, GraphResource, RenderResource};

#[test]
fn asset_types_have_extensions() {
    assert_eq!(AssetType::Mesh.extension(), "mesh");
    assert_eq!(AssetType::Texture.extension(), "tex");
    assert_eq!(AssetType::Material.extension(), "mat");
    assert_eq!(AssetType::MeshCollection.extension(), "mscl");
}

#[test]
fn url_type_comes_from_its_extension() {
    assert_eq!(AssetUrl::new("models/box.mesh").ty(), AssetType::Mesh);
    assert_eq!(AssetUrl::new("models/Box.MSCL").ty(), AssetType::MeshCollection);
    assert_eq!(AssetUrl::new("a/b.Tex").try_ty(), Some(AssetType::Texture));
    assert_eq!(AssetUrl::new("a/b.mat").try_ty(), Some(AssetType::Material));
    assert_eq!(AssetUrl::new("scene.gltf").try_ty(), None);
    assert_eq!(AssetUrl::new("noext").try_ty(), None);
    assert_eq!(AssetUrl::invalid().try_ty(), None);
    assert_eq!(AssetUrl::invalid().path(), "");
}

#[test]
fn handles_and_requests_keep_their_location() {
    let url = AssetUrl::new("cache/box.mesh");
    let h: AssetHandle<u8> = AssetHandle::new(url.clone());
    assert_eq!(h.url(), &url);
    let none: AssetHandle<u8> = AssetHandle::invalid();
    assert_eq!(none.url().path(), "");
    assert_eq!(AssetLoadRequest::new(url.clone()).url(), &url);
    assert_eq!(RawResourceLoadRequest::new("box.gltf").path(), "box.gltf");
}

#[derive(Clone, Debug, PartialEq)]
struct Buffer(u32);

impl GraphResource for Buffer {}

#[test]
fn render_resources_and_compute_descriptors() {
    let r = RenderResource::new(Buffer(3));
    assert_eq!(r.0, Buffer(3));
    let d = ComputePipelineDescriptor::default();
    assert_eq!(d.name(), "Unknown");
    assert!(!d.valid());
}
