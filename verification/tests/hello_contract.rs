use liquid_core::hello::HelloWorld;

#[test]
fn get_works() {
    let contract = HelloWorld::new();
    assert_eq!(contract.get(), "Hello, World!".to_owned());
}

#[test]
fn set_works() {
    let new_name = "Bye, world!".to_owned();
    let mut contract = HelloWorld::new();
    contract.set(new_name.clone());
    assert_eq!(contract.get(), new_name);
}
