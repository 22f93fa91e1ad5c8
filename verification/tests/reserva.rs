use chrono::{Datelike, Utc};
use reservas::reserva::{EstadoReserva, Reserva, ReservaError};
use reservas::slot::Slot;

#[test]
fn test_crear_reserva_valida() {
    let manyana = Utc::now() + chrono::Duration::days(1);
    let slot =
        Slot::from_date_and_hour(manyana.year(), manyana.month(), manyana.day(), 10).unwrap();

    let reserva = Reserva::new(
        "1".to_string(),
        "emp-001".to_string(),
        slot,
        "Reunión con cliente".to_string(),
    );

    assert!(reserva.is_ok());
    let r = reserva.unwrap();
    assert_eq!(r.estado, EstadoReserva::Pendiente);
    assert_eq!(r.empleado_id, "emp-001");
}

#[test]
fn test_slot_en_el_pasado() {
    let ayer = Utc::now() - chrono::Duration::days(1);
    let slot = Slot::from_date_and_hour(ayer.year(), ayer.month(), ayer.day(), 10).unwrap();

    let reserva = Reserva::new(
        "1".to_string(),
        "emp-001".to_string(),
        slot,
        "Reunión".to_string(),
    );

    assert_eq!(reserva, Err(ReservaError::SlotEnElPasado));
}

#[test]
fn test_slot_fuera_horario_laboral() {
    let manyana = Utc::now() + chrono::Duration::days(1);
    let slot = Slot::from_date_and_hour(
        manyana.year(),
        manyana.month(),
        manyana.day(),
        20, // 8 PM - fuera de horario
    )
    .unwrap();

    let reserva = Reserva::new(
        "1".to_string(),
        "emp-001".to_string(),
        slot,
        "Reunión".to_string(),
    );

    assert_eq!(reserva, Err(ReservaError::SlotFueraDeHorarioLaboral));
}

#[test]
fn test_descripcion_vacia() {
    let manyana = Utc::now() + chrono::Duration::days(1);
    let slot =
        Slot::from_date_and_hour(manyana.year(), manyana.month(), manyana.day(), 10).unwrap();

    let reserva = Reserva::new(
        "1".to_string(),
        "emp-001".to_string(),
        slot,
        "   ".to_string(), // solo espacios
    );

    assert_eq!(reserva, Err(ReservaError::DescripcionVacia));
}

#[test]
fn test_confirmar_reserva() {
    let manyana = Utc::now() + chrono::Duration::days(1);
    let slot =
        Slot::from_date_and_hour(manyana.year(), manyana.month(), manyana.day(), 14).unwrap();

    let mut reserva = Reserva::new(
        "1".to_string(),
        "emp-001".to_string(),
        slot,
        "Reunión importante".to_string(),
    )
    .unwrap();

    reserva.confirmar();
    assert_eq!(reserva.estado, EstadoReserva::Confirmada);
    assert!(reserva.esta_activa());
}

#[test]
fn test_cancelar_reserva() {
    let manyana = Utc::now() + chrono::Duration::days(1);
    let slot =
        Slot::from_date_and_hour(manyana.year(), manyana.month(), manyana.day(), 14).unwrap();

    let mut reserva = Reserva::new(
        "1".to_string(),
        "emp-001".to_string(),
        slot,
        "Reunión".to_string(),
    )
    .unwrap();

    reserva.cancelar();
    assert_eq!(reserva.estado, EstadoReserva::Cancelada);
    assert!(!reserva.esta_activa());
}
