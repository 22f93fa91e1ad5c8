use chrono::{Datelike, Timelike, Utc};
use reservas::aplicacion::{EmpleadoServiceImpl, ReservaServiceImpl, SalaServiceImpl};
use reservas::disponibilidad::DisponibilidadService;
use reservas::dto::{EmpleadoResponse, ReservaResponse, SlotInfo};
use reservas::empleado::Empleado;
use reservas::memoria::{
    InMemoryEmpleadoRepository, InMemoryReservaRepository, InMemorySalaRepository,
};
use reservas::puertos::{EmpleadoService, ReservaService, SalaService};
use reservas::reserva::{EstadoReserva, Reserva, ReservaError};
use reservas::sala::Sala;
use reservas::slot::Slot;

fn slot_futuro(hour: u32) -> Slot {
    let manyana = Utc::now() + chrono::Duration::days(1);
    Slot::from_date_and_hour(manyana.year(), manyana.month(), manyana.day(), hour).unwrap()
}

fn empleado(id: &str, nombre: &str) -> Empleado {
    Empleado::new(id.to_string(), nombre.to_string(), format!("{}@empresa.com", id))
}

fn reserva_activa(id: &str, empleado_id: &str, slot: Slot) -> Reserva {
    Reserva::new(
        id.to_string(),
        empleado_id.to_string(),
        slot,
        "Reunión".to_string(),
    )
    .unwrap()
}

#[test]
fn horario_laboral_por_cada_hora() {
    for hora in 0..24u32 {
        let slot = Slot::from_date_and_hour(2030, 6, 10, hora).unwrap();
        assert_eq!(slot.es_horario_laboral(), (9..18).contains(&hora));
    }
}

#[test]
fn normalizacion_idempotente() {
    let casos = [(2025, 11, 22, 10), (1969, 12, 31, 23), (2000, 2, 29, 0), (1, 1, 1, 9)];
    for (y, m, d, h) in casos {
        let slot = Slot::from_date_and_hour(y, m, d, h).unwrap();
        assert_eq!(Slot::new(slot.inicio), slot);
        // un instante a media hora cae en el mismo slot
        assert_eq!(Slot::new(slot.inicio + 1800), slot);
    }
}

#[test]
fn fechas_invalidas_rechazadas() {
    assert!(Slot::from_date_and_hour(2025, 2, 30, 10).is_none());
    assert!(Slot::from_date_and_hour(2025, 13, 1, 10).is_none());
    assert!(Slot::from_date_and_hour(2025, 11, 22, 24).is_none());
    assert!(Slot::from_date_and_hour(2025, 2, 29, 10).is_none()); // 2025 no es bisiesto
    assert!(Slot::from_date_and_hour(2024, 2, 29, 10).is_some()); // 2024 si lo es
}

#[test]
fn slots_del_dia_ascendentes() {
    let slots = Slot::slots_del_dia(2025, 11, 22);
    assert_eq!(slots.len(), 9);
    for (i, slot) in slots.iter().enumerate() {
        let hora = chrono::DateTime::from_timestamp(slot.inicio, 0).unwrap().hour();
        assert_eq!(hora, 9 + i as u32);
    }
    for par in slots.windows(2) {
        assert!(par[0].inicio < par[1].inicio);
    }
    // una fecha que no existe no da slots
    assert!(Slot::slots_del_dia(2025, 2, 30).is_empty());
}

#[test]
fn orden_de_las_validaciones() {
    // un slot pasado y fuera de horario cae primero en SlotEnElPasado
    let ayer = Utc::now() - chrono::Duration::days(1);
    let slot_pasado =
        Slot::from_date_and_hour(ayer.year(), ayer.month(), ayer.day(), 20).unwrap();
    let r = Reserva::new("1".into(), "e".into(), slot_pasado, "   ".into());
    assert_eq!(r, Err(ReservaError::SlotEnElPasado));

    // un slot futuro fuera de horario con descripcion blanca cae en el horario
    let r2 = Reserva::new("1".into(), "e".into(), slot_futuro(20), "   ".into());
    assert_eq!(r2, Err(ReservaError::SlotFueraDeHorarioLaboral));
}

#[test]
fn el_slot_debe_ser_estrictamente_futuro() {
    let slot = Slot::from_date_and_hour(2030, 6, 10, 10).unwrap();
    // un instante dentro del propio slot, su comienzo incluido, ya es tarde
    let en_el_comienzo = Reserva::nueva_con_instante(
        "1".into(),
        "e".into(),
        slot.clone(),
        "Reunión".into(),
        slot.inicio,
    );
    assert_eq!(en_el_comienzo, Err(ReservaError::SlotEnElPasado));

    // un segundo antes del comienzo todavia vale
    let justo_antes = Reserva::nueva_con_instante(
        "1".into(),
        "e".into(),
        slot,
        "Reunión".into(),
        slot.inicio - 1,
    );
    assert_eq!(justo_antes.unwrap().estado, EstadoReserva::Pendiente);
}

#[test]
fn disponibilidad_solo_bloquea_su_par() {
    let s10 = slot_futuro(10);
    let s11 = slot_futuro(11);
    let reservas = vec![reserva_activa("r1", "emp-001", s10.clone())];

    assert!(!DisponibilidadService::empleado_disponible_en_slot("emp-001", &s10, &reservas));
    assert!(DisponibilidadService::empleado_disponible_en_slot("emp-001", &s11, &reservas));
    assert!(DisponibilidadService::empleado_disponible_en_slot("emp-002", &s10, &reservas));
}

#[test]
fn tabla_excluye_inactivos() {
    let mut inactivo = empleado("emp-003", "Luis");
    inactivo.desactivar();
    let empleados = vec![empleado("emp-001", "Juan"), empleado("emp-002", "María"), inactivo];
    let slots = vec![slot_futuro(9), slot_futuro(10), slot_futuro(11)];

    let tabla = DisponibilidadService::generar_tabla_disponibilidad(&empleados, &slots, &[]);
    assert_eq!(tabla.disponibilidad.len(), 6); // 2 activos x 3 slots
    assert_eq!(tabla.empleados.len(), 2);
    assert!(tabla.get_disponibilidad("emp-003", &slots[0]).is_none());
}

#[test]
fn cancelar_devuelve_la_disponibilidad() {
    let s10 = slot_futuro(10);
    let mut reservas = vec![reserva_activa("r1", "emp-001", s10.clone())];
    assert!(!DisponibilidadService::empleado_disponible_en_slot("emp-001", &s10, &reservas));

    reservas[0].cancelar();
    assert!(!reservas[0].esta_activa());
    assert_eq!(reservas.len(), 1); // la fila sigue existiendo
    assert!(DisponibilidadService::empleado_disponible_en_slot("emp-001", &s10, &reservas));
}

#[test]
fn sin_empleados_todos_los_slots_libres() {
    let slots = vec![slot_futuro(9), slot_futuro(10), slot_futuro(11)];
    let reservas = vec![reserva_activa("r1", "emp-001", slots[0].clone())];

    let libres = DisponibilidadService::slots_con_todos_disponibles(&[], &slots, &reservas);
    assert_eq!(libres, slots);
}

#[test]
fn slots_libres_conserva_el_orden() {
    let slots = vec![slot_futuro(10), slot_futuro(11), slot_futuro(12)];
    let reservas = vec![reserva_activa("r1", "emp-001", slots[1].clone())];

    let libres = DisponibilidadService::slots_libres_empleado("emp-001", &slots, &reservas);
    assert_eq!(libres, vec![slots[0].clone(), slots[2].clone()]);
}

#[test]
fn mas_ocupados_ordena_por_cuenta() {
    let empleados = vec![empleado("a", "Ana"), empleado("b", "Bruno"), empleado("c", "Carla")];
    let reservas = vec![
        reserva_activa("r1", "a", slot_futuro(9)),
        reserva_activa("r2", "a", slot_futuro(10)),
        reserva_activa("r3", "a", slot_futuro(11)),
        reserva_activa("r4", "c", slot_futuro(9)),
    ];

    let ranking = DisponibilidadService::empleados_mas_ocupados(&empleados, &reservas);
    assert_eq!(
        ranking,
        vec![("Ana".to_string(), 3), ("Carla".to_string(), 1), ("Bruno".to_string(), 0)]
    );
}

#[test]
fn mas_ocupados_conserva_el_orden_entre_empatados() {
    let empleados = vec![empleado("a", "Ana"), empleado("b", "Bruno"), empleado("c", "Carla")];
    let reservas = vec![
        reserva_activa("r1", "b", slot_futuro(9)),
        reserva_activa("r2", "c", slot_futuro(9)),
    ];

    let ranking = DisponibilidadService::empleados_mas_ocupados(&empleados, &reservas);
    assert_eq!(
        ranking,
        vec![("Bruno".to_string(), 1), ("Carla".to_string(), 1), ("Ana".to_string(), 0)]
    );
}

#[test]
fn resumen_cuenta_solo_activas() {
    let s10 = slot_futuro(10);
    let s11 = slot_futuro(11);
    let mut cancelada = reserva_activa("r3", "emp-003", s11.clone());
    cancelada.cancelar();
    let reservas = vec![
        reserva_activa("r1", "emp-001", s10.clone()),
        reserva_activa("r2", "emp-002", s10.clone()),
        cancelada,
    ];

    let resumen =
        DisponibilidadService::resumen_ocupacion(&[s10.clone(), s11.clone()], &reservas);
    assert_eq!(resumen.len(), 2);
    assert_eq!(resumen[&s10.inicio], 2);
    assert_eq!(resumen[&s11.inicio], 0);
}

#[test]
fn reservas_de_empleado_filtra_y_ordena() {
    let r1 = reserva_activa("r1", "emp-001", slot_futuro(9));
    let mut r2 = reserva_activa("r2", "emp-001", slot_futuro(10));
    r2.cancelar();
    let r3 = reserva_activa("r3", "emp-002", slot_futuro(9));
    let r4 = reserva_activa("r4", "emp-001", slot_futuro(11));
    let reservas = vec![r1, r2, r3, r4];

    let mias = DisponibilidadService::reservas_de_empleado("emp-001", &reservas);
    let ids: Vec<&str> = mias.iter().map(|r| r.id.as_str()).collect();
    assert_eq!(ids, vec!["r1", "r4"]);
}

#[test]
fn formato_legible_exacto() {
    let slot = Slot::from_date_and_hour(2025, 11, 22, 14).unwrap();
    assert_eq!(slot.formato_legible(), "2025-11-22 14:00-15:00");

    let tarde = Slot::from_date_and_hour(2025, 11, 22, 23).unwrap();
    assert_eq!(tarde.formato_legible(), "2025-11-22 23:00-00:00");
}

#[test]
fn formato_texto_exacto() {
    let empleados = vec![empleado("emp-001", "Juan")];
    let slot = slot_futuro(10);
    let reservas = vec![reserva_activa("r1", "emp-001", slot.clone())];
    let tabla =
        DisponibilidadService::generar_tabla_disponibilidad(&empleados, &[slot], &reservas);

    let esperado = format!(
        "{}{}{}\n{}\n{}{}{}\n",
        "Empleado            ",
        " | ",
        "     10     ",
        "-".repeat(35),
        "Juan                ",
        " | ",
        "     ✗      ",
    );
    assert_eq!(tabla.formato_texto(), esperado);
}

#[test]
fn validacion_de_salas() {
    assert!(Sala::new("s1".into(), "   ".into(), 5).is_err());
    let error_nombre = Sala::new("s1".into(), "".into(), 5).unwrap_err();
    assert_eq!(error_nombre, "El nombre no puede estar vacío");
    let error_capacidad = Sala::new("s1".into(), "Grande".into(), 0).unwrap_err();
    assert_eq!(error_capacidad, "La capacidad debe ser mayor a 0");

    let sala = Sala::new("s1".into(), "Grande".into(), 12).unwrap();
    assert_eq!(sala.nombre, "Grande");
    assert_eq!(sala.capacidad, 12);
    assert!(sala.activa);
}

#[test]
fn servicio_de_salas() {
    let mut servicio = SalaServiceImpl::new(InMemorySalaRepository::new());
    let sala = servicio.crear_sala("Grande".to_string(), 12).unwrap();
    assert_eq!(sala.id.len(), 36);

    servicio.desactivar_sala(&sala.id).unwrap();
    let guardada = servicio.obtener_sala(&sala.id).unwrap().unwrap();
    assert!(!guardada.activa);

    servicio.activar_sala(&sala.id).unwrap();
    let otra_vez = servicio.obtener_sala(&sala.id).unwrap().unwrap();
    assert!(otra_vez.activa);

    assert!(servicio.crear_sala("  ".to_string(), 3).is_err());
    assert!(servicio.activar_sala("no-existe").is_err());
}

#[test]
fn escenario_completo() {
    let mut empleados = EmpleadoServiceImpl::new(InMemoryEmpleadoRepository::new());
    let mut reservas = ReservaServiceImpl::new(InMemoryReservaRepository::new());

    let juan = empleados
        .crear_empleado("Juan".to_string(), "juan@empresa.com".to_string())
        .unwrap();
    assert_eq!(juan.id.len(), 36); // id asignado automaticamente
    assert!(juan.activo);

    let slot = slot_futuro(10);
    let reserva = reservas
        .crear_reserva(juan.id.clone(), slot.clone(), "Meeting".to_string())
        .unwrap();
    assert_eq!(reserva.estado, EstadoReserva::Pendiente);

    // el mismo empleado no puede reservar dos veces el mismo slot
    let duplicada = reservas.crear_reserva(juan.id.clone(), slot.clone(), "Otra".to_string());
    assert!(duplicada.is_err());
    assert!(duplicada.unwrap_err().contains("ya tiene una reserva"));

    let confirmada = reservas.confirmar_reserva(&reserva.id).unwrap();
    assert_eq!(confirmada.estado, EstadoReserva::Confirmada);

    let cancelada = reservas.cancelar_reserva(&reserva.id).unwrap();
    assert_eq!(cancelada.estado, EstadoReserva::Cancelada);
    assert!(!cancelada.esta_activa());

    // cancelada la reserva, el slot vuelve a estar libre para Juan
    let otra = reservas
        .crear_reserva(juan.id.clone(), slot, "Meeting".to_string())
        .unwrap();
    assert_eq!(otra.estado, EstadoReserva::Pendiente);

    // desactivar a Juan lo deja fuera de la tabla
    let apagado = empleados.desactivar_empleado(&juan.id).unwrap();
    assert!(!apagado.activo);
    assert!(empleados.obtener_empleado("no-existe").unwrap().is_none());
}

#[test]
fn respuestas_planas() {
    let e = empleado("emp-001", "Juan");
    let respuesta = EmpleadoResponse::from(e);
    assert_eq!(respuesta.id, "emp-001");
    assert!(respuesta.activo);

    let slot = Slot::from_date_and_hour(2030, 6, 10, 10).unwrap();
    let info = SlotInfo::desde(&slot);
    assert_eq!(info.hora, 10);
    assert_eq!(info.fin - info.inicio, 3600);

    let r = reserva_activa("r1", "emp-001", slot_futuro(10));
    let rr = ReservaResponse::desde(&r);
    assert_eq!(rr.estado, "pendiente");
    assert_eq!(rr.slot_fin - rr.slot_inicio, 3600);
}
