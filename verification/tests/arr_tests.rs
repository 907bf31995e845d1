use light_field_test::arr::{FromArr, Matrix4, ToArr, Vector3, Vector4};

#[test]
fn vector3_round_trip() {
    let v = Vector3::new(1.0f32, 2.0, 3.0);
    assert_eq!(v.to_arr(), [1.0, 2.0, 3.0]);
    assert_eq!(Vector3::from_arr(v.to_arr()), v);
    assert_eq!(Vector3::from_arr([4, 5, 6]).to_arr(), [4, 5, 6]);
}

#[test]
fn vector4_round_trip() {
    let v = Vector4::new(1u8, 2, 3, 4);
    assert_eq!(v.to_arr(), [1, 2, 3, 4]);
    assert_eq!(Vector4::from_arr(v.to_arr()), v);
}

#[test]
fn matrix4_to_columns() {
    let m = Matrix4 {
        x: Vector4::new(1, 0, 0, 0),
        y: Vector4::new(0, 1, 0, 0),
        z: Vector4::new(0, 0, 1, 0),
        w: Vector4::new(5, 6, 7, 1),
    };
    assert_eq!(m.to_arr(), [[1, 0, 0, 0], [0, 1, 0, 0], [0, 0, 1, 0], [5, 6, 7, 1]]);
}
