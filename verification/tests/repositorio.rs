use chrono::{Datelike, Utc};
use reservas::memoria::InMemoryReservaRepository;
use reservas::puertos::ReservaRepository;
use reservas::reserva::{EstadoReserva, Reserva};
use reservas::slot::Slot;

fn slot_de_manyana(hour: u32) -> Slot {
    let manyana = Utc::now() + chrono::Duration::days(1);
    Slot::from_date_and_hour(manyana.year(), manyana.month(), manyana.day(), hour).unwrap()
}

#[test]
fn test_guardar_y_obtener() {
    let mut repo = InMemoryReservaRepository::new();
    let slot = slot_de_manyana(10);

    let reserva = Reserva::new(
        "1".to_string(),
        "emp-001".to_string(),
        slot,
        "Test".to_string(),
    )
    .unwrap();

    repo.guardar(&reserva).unwrap();
    let obtenida = repo.obtener("1").unwrap();

    assert_eq!(obtenida, Some(reserva));
}

#[test]
fn test_actualizar() {
    let mut repo = InMemoryReservaRepository::new();
    let slot = slot_de_manyana(10);

    let mut reserva = Reserva::new(
        "1".to_string(),
        "emp-001".to_string(),
        slot,
        "Test".to_string(),
    )
    .unwrap();
    repo.guardar(&reserva).unwrap();

    reserva.confirmar();
    repo.actualizar(&reserva).unwrap();

    let obtenida = repo.obtener("1").unwrap().unwrap();
    assert_eq!(obtenida.estado, EstadoReserva::Confirmada);
}

#[test]
fn test_existe_para_empleado_en_slot() {
    let mut repo = InMemoryReservaRepository::new();
    let slot = slot_de_manyana(10);

    let reserva = Reserva::new(
        "1".to_string(),
        "emp-001".to_string(),
        slot.clone(),
        "Test".to_string(),
    )
    .unwrap();

    repo.guardar(&reserva).unwrap();

    assert!(repo.existe_para_empleado_en_slot("emp-001", &slot).unwrap());
    assert!(!repo.existe_para_empleado_en_slot("emp-002", &slot).unwrap());
}
