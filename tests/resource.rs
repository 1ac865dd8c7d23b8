use my_engine::resource::ResourceManager;

#[test]
fn same_name_gives_the_same_handle() {
    let mut rm: ResourceManager<&str, Vec<u32>> = ResourceManager::new();
    let a = rm.add_texture("grass".to_string(), "first");
    let b = rm.add_texture("stone".to_string(), "second");
    let again = rm.add_texture("grass".to_string(), "third");
    assert_eq!((a, b, again), (0, 1, 0));
    assert_eq!(rm.get_texture(0), Some(&"first"));
    assert_eq!(rm.get_texture(2), None);
    assert_eq!(rm.texture_handle(&"stone".to_string()), Some(1));
    assert_eq!(rm.texture_handle(&"sand".to_string()), None);
}

#[test]
fn meshes_kept_apart_from_textures() {
    let mut rm: ResourceManager<&str, Vec<u32>> = ResourceManager::new();
    rm.add_texture("cube".to_string(), "tex");
    let m = rm.add_mesh("cube".to_string(), vec![0, 1, 2]);
    assert_eq!(m, 0);
    assert_eq!(rm.add_mesh("quad".to_string(), vec![0, 1, 2, 2, 3, 0]), 1);
    assert_eq!(rm.add_mesh("cube".to_string(), vec![9]), 0);
    assert_eq!(rm.get_mesh(0), Some(&vec![0, 1, 2]));
    assert_eq!(rm.mesh_handle(&"quad".to_string()), Some(1));
    rm.get_mesh_mut(1).unwrap().push(7);
    assert_eq!(rm.get_mesh(1).unwrap().len(), 7);
    assert!(rm.get_mesh_mut(5).is_none());
}
