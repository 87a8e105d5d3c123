use posh::gen::names::{struct_name, var_name};

#[test]
fn var_names_are_numbered() {
    assert_eq!(var_name(0), "var_0");
    assert_eq!(var_name(42), "var_42");
}

#[test]
fn struct_names_carry_their_position() {
    assert_eq!(struct_name("Light", 3), "Light_Posh3");
}
