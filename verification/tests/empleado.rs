use reservas::empleado::Empleado;

#[test]
fn test_crear_empleado() {
    let empleado = Empleado::new(
        "1".to_string(),
        "Juan López".to_string(),
        "juan@empresa.com".to_string(),
    );

    assert_eq!(empleado.nombre, "Juan López");
    assert!(empleado.activo);
}

#[test]
fn test_desactivar_empleado() {
    let mut empleado = Empleado::new(
        "1".to_string(),
        "Juan".to_string(),
        "juan@empresa.com".to_string(),
    );

    empleado.desactivar();
    assert!(!empleado.activo);

    empleado.activar();
    assert!(empleado.activo);
}
