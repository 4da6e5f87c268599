use bugsyth_engine::asset::model::Model;
use bugsyth_engine::asset::{Asset, MeshType};
use bugsyth_engine::game_state::dt::DeltaTime;

#[test]
fn asset_keeps_model_and_layout() {
    let a = Asset::new(Model::new(vec![1, 2, 3]), MeshType::Skeletal);
    assert_eq!(a.model.get_vbo(), &vec![1, 2, 3]);
    assert_eq!(a.mesh_type, MeshType::Skeletal);
    assert!(MeshType::Standard < MeshType::Skeletal);
}

#[test]
fn delta_time_counts_up() {
    let mut dt = DeltaTime::new();
    let first = dt.get_dt();
    let second = dt.get_dt();
    assert!(first < 10_000_000);
    assert!(second < 10_000_000);
}
