use lensing::array_buffer::{ArrayBuffer, ArrayBufferUniform, PoolError};
use lensing::geometry::Vec3;
use lensing::material::{
    Color, Material, MaterialArrayBuffer, MaterialUniform, CHANNEL_ONE, MAX_MATERIALS,
};
use lensing::model::{Model, ModelArrayBuffer, ModelUniform, MAX_MODELS};
use lensing::triangle::{NodeUniform, Triangle};

fn grey(level: u32) -> Material {
    Material::new(Color { r: level, g: level, b: level, a: CHANNEL_ONE })
}

#[test]
fn pool_takes_as_many_as_it_has_room_for() {
    let mut pool = MaterialArrayBuffer::new();
    for i in 0..MAX_MATERIALS {
        assert_eq!(pool.insert(grey(i as u32)), Ok(i));
        assert_eq!(pool.size(), i + 1);
    }
    assert_eq!(pool.insert(grey(99)), Err(PoolError::PoolFull));
    assert_eq!(pool.size(), MAX_MATERIALS);
    assert_eq!(pool.get(MAX_MATERIALS - 1), Some(&grey(7)));
}

#[test]
fn remove_moves_the_last_entity_into_the_gap() {
    let mut pool = MaterialArrayBuffer::new();
    for i in 0..5 {
        pool.insert(grey(i)).unwrap();
    }
    pool.remove(1);
    assert_eq!(pool.size(), 4);
    assert_eq!(pool.get(1), Some(&grey(4)));
    assert_eq!(pool.get(0), Some(&grey(0)));
    assert_eq!(pool.get(2), Some(&grey(2)));
    assert_eq!(pool.get(3), Some(&grey(3)));
    assert_eq!(pool.get(4), None);
}

#[test]
fn remove_of_the_last_slot_frees_it() {
    let mut pool = MaterialArrayBuffer::new();
    pool.insert(grey(1)).unwrap();
    pool.insert(grey(2)).unwrap();
    pool.remove(1);
    assert_eq!(pool.size(), 1);
    assert_eq!(pool.get(1), None);
    assert_eq!(pool.get(0), Some(&grey(1)));
    pool.remove(0);
    assert_eq!(pool.size(), 0);
    assert_eq!(pool.get(0), None);
}

#[test]
fn remove_of_a_free_slot_does_nothing() {
    let mut pool = MaterialArrayBuffer::new();
    pool.insert(grey(1)).unwrap();
    pool.remove(1);
    pool.remove(MAX_MATERIALS);
    pool.remove(usize::MAX);
    assert_eq!(pool.size(), 1);
    assert_eq!(pool.get(0), Some(&grey(1)));
}

#[test]
fn get_of_a_free_slot_is_none() {
    let mut pool = MaterialArrayBuffer::new();
    assert_eq!(pool.get(0), None);
    assert!(pool.get_mut(0).is_none());
    pool.insert(grey(3)).unwrap();
    assert_eq!(pool.get(0), Some(&grey(3)));
    assert_eq!(pool.get(1), None);
    assert_eq!(pool.get(usize::MAX), None);
    assert!(pool.get_mut(1).is_none());
}

#[test]
fn get_mut_changes_the_entity_in_place() {
    let mut pool = MaterialArrayBuffer::new();
    pool.insert(grey(3)).unwrap();
    pool.insert(grey(4)).unwrap();
    pool.get_mut(1).unwrap().color.g = 77;
    assert_eq!(pool.get(1).unwrap().color, Color { r: 4, g: 77, b: 4, a: CHANNEL_ONE });
    assert_eq!(pool.get(0), Some(&grey(3)));
}

#[test]
fn records_start_blank_and_follow_their_entities() {
    let mut pool = MaterialArrayBuffer::new();
    let blank = MaterialUniform::default();
    assert_eq!(blank.color, Color { r: 0x3F80_0000, g: 0x3F80_0000, b: 0x3F80_0000, a: 0x3F80_0000 });
    assert_eq!(pool.export().len(), MAX_MATERIALS);
    assert!(pool.export().iter().all(|r| *r == blank));
    pool.insert(grey(10)).unwrap();
    pool.insert(grey(20)).unwrap();
    // Nothing is refreshed before it is asked for.
    assert_eq!(pool.export()[0], blank);
    pool.sync_device_record(1);
    assert_eq!(pool.export()[0], blank);
    assert_eq!(pool.export()[1].color, grey(20).color);
    pool.sync_device_record(5);
    assert_eq!(pool.export()[5], blank);
    pool.update_buffer();
    assert_eq!(pool.export()[0].color, grey(10).color);
    assert_eq!(pool.export()[1].color, grey(20).color);
    for i in 2..MAX_MATERIALS {
        assert_eq!(pool.export()[i], blank);
    }
    assert_eq!(pool.export().len(), MAX_MATERIALS);
}

#[test]
fn a_record_of_a_vacated_slot_stays_until_refreshed() {
    let mut pool = MaterialArrayBuffer::new();
    pool.insert(grey(10)).unwrap();
    pool.insert(grey(20)).unwrap();
    pool.update_buffer();
    pool.remove(0);
    assert_eq!(pool.export()[0].color, grey(10).color);
    assert_eq!(pool.export()[1].color, grey(20).color);
    pool.update_buffer();
    assert_eq!(pool.export()[0].color, grey(20).color);
    assert_eq!(pool.export()[1].color, grey(20).color);
}

#[test]
fn default_pool_is_empty() {
    let pool: ArrayBuffer<3, Material, MaterialUniform> = Default::default();
    assert_eq!(pool.size(), 0);
    assert_eq!(pool.export().len(), 3);
}

#[test]
fn model_pool_holds_one_model() {
    let mut pool = ModelArrayBuffer::new();
    assert_eq!(MAX_MODELS, 1);
    assert_eq!(pool.insert(Model::new("first")), Ok(0));
    assert_eq!(pool.insert(Model::new("second")), Err(PoolError::PoolFull));
    assert_eq!(pool.size(), 1);
    let kept: String = pool.get(0).unwrap().ident.iter().collect();
    assert_eq!(kept, "first");
}

#[test]
fn model_record_mirrors_the_model() {
    let mut model = Model::new("m");
    model.add_vertex(Vec3::new(0, 0, 0));
    model.add_vertex(Vec3::new(4, 0, 0));
    model.add_vertex(Vec3::new(0, 4, 0));
    model.add_normal(Vec3::new(0, 0, 1024));
    model.add_triangle(Triangle { p1: 0, p2: 1, p3: 2, n1: 0, n2: 0, n3: 0 });
    model.build_bvh();
    model.visible = 0;
    let mut record = ModelUniform::default();
    record.normal_count = 41;
    record.update(&model);
    assert_eq!(record.position, Vec3::new(-7168, 0, 35840));
    assert_eq!(record.rotation, Vec3::new(0, 0, 0));
    assert_eq!(record.visible, 0);
    assert_eq!(record.point_count, 3);
    assert_eq!(record.triangle_count, 1);
    assert_eq!(record.normal_count, 41);
    assert_eq!(record.points, model.points);
    assert_eq!(record.normals, model.normals);
    assert_eq!(record.triangles, model.triangles);
    assert_eq!(record.bvh_lookup, vec![0]);
    assert_eq!(
        record.nodes,
        vec![NodeUniform {
            min_corner: Vec3::new(0, 0, 0),
            left_child: 0,
            max_corner: Vec3::new(4, 4, 0),
            obj_count: 1,
        }]
    );
    assert_eq!(NodeUniform::from(model.nodes[0]), record.nodes[0]);
}
