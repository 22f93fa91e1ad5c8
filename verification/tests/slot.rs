use chrono::{Datelike, Timelike, Utc};
use reservas::slot::Slot;

fn fecha_hora(slot: &Slot) -> chrono::DateTime<Utc> {
    chrono::DateTime::from_timestamp(slot.inicio, 0).unwrap()
}

#[test]
fn test_crear_slot() {
    let slot = Slot::from_date_and_hour(2025, 11, 22, 10).unwrap();
    assert_eq!(fecha_hora(&slot).hour(), 10);
    assert_eq!(fecha_hora(&slot).minute(), 0);
}

#[test]
fn test_slot_horario_laboral() {
    let slot_laboral = Slot::from_date_and_hour(2025, 11, 22, 14).unwrap();
    assert!(slot_laboral.es_horario_laboral());

    let slot_fuera = Slot::from_date_and_hour(2025, 11, 22, 20).unwrap();
    assert!(!slot_fuera.es_horario_laboral());
}

#[test]
fn test_siguiente_slot() {
    let slot = Slot::from_date_and_hour(2025, 11, 22, 10).unwrap();
    let siguiente = slot.siguiente();
    assert_eq!(fecha_hora(&siguiente).hour(), 11);
}

#[test]
fn test_slots_del_dia() {
    let fecha = Utc::now();
    let slots = Slot::slots_del_dia(fecha.year(), fecha.month(), fecha.day());
    assert_eq!(slots.len(), 9); // 9:00 a 17:00 (9 slots)
}

#[test]
fn test_formato_legible() {
    let slot = Slot::from_date_and_hour(2025, 11, 22, 14).unwrap();
    let formato = slot.formato_legible();
    assert!(formato.contains("14:00-15:00"));
}
