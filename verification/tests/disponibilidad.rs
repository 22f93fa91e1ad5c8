use chrono::{Datelike, Utc};
use reservas::disponibilidad::DisponibilidadService;
use reservas::empleado::Empleado;
use reservas::reserva::Reserva;
use reservas::slot::Slot;

fn crear_empleado(id: &str, nombre: &str) -> Empleado {
    Empleado::new(
        id.to_string(),
        nombre.to_string(),
        format!("{}@empresa.com", id),
    )
}

fn crear_slot_futuro(hour: u32) -> Slot {
    let manyana = Utc::now() + chrono::Duration::days(1);
    Slot::from_date_and_hour(manyana.year(), manyana.month(), manyana.day(), hour).unwrap()
}

#[test]
fn test_empleado_disponible_sin_reservas() {
    let slot = crear_slot_futuro(10);
    let reservas = vec![];

    assert!(DisponibilidadService::empleado_disponible_en_slot(
        "emp-001", &slot, &reservas
    ));
}

#[test]
fn test_empleado_no_disponible_con_reserva() {
    let slot = crear_slot_futuro(10);
    let reserva = Reserva::new(
        "r1".to_string(),
        "emp-001".to_string(),
        slot.clone(),
        "Reunión".to_string(),
    )
    .unwrap();

    assert!(!DisponibilidadService::empleado_disponible_en_slot(
        "emp-001",
        &slot,
        &[reserva]
    ));
}

#[test]
fn test_generar_tabla_disponibilidad() {
    let empleados = vec![
        crear_empleado("emp-001", "Juan"),
        crear_empleado("emp-002", "María"),
    ];

    let slots = vec![crear_slot_futuro(10), crear_slot_futuro(11)];

    let reserva = Reserva::new(
        "r1".to_string(),
        "emp-001".to_string(),
        slots[0].clone(),
        "Reunión".to_string(),
    )
    .unwrap();

    let tabla =
        DisponibilidadService::generar_tabla_disponibilidad(&empleados, &slots, &[reserva]);

    assert_eq!(tabla.empleados.len(), 2);
    assert_eq!(tabla.slots.len(), 2);
    assert_eq!(tabla.disponibilidad.len(), 4); // 2 empleados x 2 slots

    // emp-001 a las 10:00 debe estar ocupado
    let disp = tabla.get_disponibilidad("emp-001", &slots[0]).unwrap();
    assert!(!disp.disponible);

    // emp-002 a las 10:00 debe estar libre
    let disp = tabla.get_disponibilidad("emp-002", &slots[0]).unwrap();
    assert!(disp.disponible);
}

#[test]
fn test_slots_con_todos_disponibles() {
    let empleados = vec![
        crear_empleado("emp-001", "Juan"),
        crear_empleado("emp-002", "María"),
    ];

    let slots = vec![crear_slot_futuro(10), crear_slot_futuro(11)];

    // Solo emp-001 tiene reserva a las 10:00
    let reserva = Reserva::new(
        "r1".to_string(),
        "emp-001".to_string(),
        slots[0].clone(),
        "Reunión".to_string(),
    )
    .unwrap();

    let libres =
        DisponibilidadService::slots_con_todos_disponibles(&empleados, &slots, &[reserva]);

    // Solo el slot de las 11:00 debe estar libre para ambos
    assert_eq!(libres.len(), 1);
    assert_eq!(libres[0], slots[1]);
}
