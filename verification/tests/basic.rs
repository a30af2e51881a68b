use rendering::material::Shading;

#[test]
fn it_works() {
    assert_eq!(2 + 2, 4);
}

#[test]
fn shading_modes_are_distinct() {
    let color = Shading::COLOR;
    let normals = Shading::NORMALS;
    assert!(matches!(color, Shading::COLOR));
    assert!(matches!(normals, Shading::NORMALS));
    assert!(matches!(color.clone(), Shading::COLOR));
}
