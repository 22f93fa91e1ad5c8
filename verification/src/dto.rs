//! Objetos de transferencia: la frontera entre el dominio y los
//! adaptadores. Aqui viven los tipos planos y las conversiones desde
//! las entidades; los adaptadores les ponen su propia piel.

use vstd::prelude::*;
use vstd::string::StringExecFns;
use crate::disponibilidad::{DisponibilidadSlot, TablaDisponibilidad};
use crate::empleado::Empleado;
use crate::reserva::{EstadoReserva, Reserva};
use crate::sala::Sala;
use crate::slot::Slot;
use crate::tiempo::hora_de;
use crate::tiempo::hora_de_exec;

verus! {

/// Peticion de alta de un empleado.
#[derive(Debug)]
pub struct CrearEmpleadoRequest {
    pub nombre: String,
    pub email: String,
}

/// Un empleado tal como se responde.
#[derive(Debug)]
pub struct EmpleadoResponse {
    pub id: String,
    pub nombre: String,
    pub email: String,
    pub activo: bool,
}

/// Peticion de creacion de una reserva: el instante se normaliza al
/// slot que lo contiene.
#[derive(Debug)]
pub struct CrearReservaRequest {
    pub empleado_id: String,
    pub inicio_slot: i64,
    pub descripcion: String,
}

/// Una reserva tal como se responde.
#[derive(Debug)]
pub struct ReservaResponse {
    pub id: String,
    pub empleado_id: String,
    pub slot_inicio: i64,
    pub slot_fin: i64,
    pub descripcion: String,
    pub estado: String,
}

/// Peticion de la tabla de disponibilidad de una fecha.
#[derive(Debug)]
pub struct ConsultarDisponibilidadRequest {
    pub fecha: String,
}

/// Una celda de disponibilidad tal como se responde.
#[derive(Debug)]
pub struct DisponibilidadEmpleadoResponse {
    pub empleado_id: String,
    pub empleado_nombre: String,
    pub slot_inicio: i64,
    pub slot_fin: i64,
    pub disponible: bool,
    pub reserva_id: Option<String>,
    pub descripcion_reserva: Option<String>,
}

/// La tabla de disponibilidad de una fecha tal como se responde.
#[derive(Debug)]
pub struct TablaDisponibilidadResponse {
    pub fecha: String,
    pub slots: Vec<SlotInfo>,
    pub disponibilidad: Vec<DisponibilidadEmpleadoResponse>,
}

/// Un slot tal como se responde: inicio, fin y hora del dia.
#[derive(Debug)]
pub struct SlotInfo {
    pub inicio: i64,
    pub fin: i64,
    pub hora: u32,
}

/// Peticion de alta de una sala.
#[derive(Debug)]
pub struct CrearSalaRequest {
    pub nombre: String,
    pub capacidad: u32,
}

/// Una sala tal como se responde.
#[derive(Debug)]
pub struct SalaResponse {
    pub id: String,
    pub nombre: String,
    pub capacidad: u32,
    pub activa: bool,
}

/// Un error tal como se responde.
#[derive(Debug)]
pub struct ErrorResponse {
    pub error: String,
}

/// Un aviso tal como se responde.
#[derive(Debug)]
pub struct MensajeResponse {
    pub mensaje: String,
}

/// El nombre con el que se responde cada estado de reserva.
pub open spec fn texto_estado(e: EstadoReserva) -> Seq<char> {
    match e {
        EstadoReserva::Pendiente => "pendiente"@,
        EstadoReserva::Confirmada => "confirmada"@,
        EstadoReserva::Cancelada => "cancelada"@,
    }
}

/// Escribe el estado de una reserva como texto.
pub fn estado_como_texto(e: &EstadoReserva) -> (r: String)
    ensures
        r@ == texto_estado(*e),
{
    match e {
        EstadoReserva::Pendiente => String::from_str("pendiente"),
        EstadoReserva::Confirmada => String::from_str("confirmada"),
        EstadoReserva::Cancelada => String::from_str("cancelada"),
    }
}

impl From<Empleado> for EmpleadoResponse {
    fn from(empleado: Empleado) -> (r: Self) {
        EmpleadoResponse {
            id: empleado.id,
            nombre: empleado.nombre,
            email: empleado.email,
            activo: empleado.activo,
        }
    }
}

impl vstd::std_specs::convert::FromSpecImpl<Empleado> for EmpleadoResponse {
    open spec fn obeys_from_spec() -> bool {
        true
    }

    open spec fn from_spec(empleado: Empleado) -> Self {
        EmpleadoResponse {
            id: empleado.id,
            nombre: empleado.nombre,
            email: empleado.email,
            activo: empleado.activo,
        }
    }
}

impl From<Sala> for SalaResponse {
    fn from(sala: Sala) -> (r: Self) {
        SalaResponse {
            id: sala.id,
            nombre: sala.nombre,
            capacidad: sala.capacidad,
            activa: sala.activa,
        }
    }
}

impl vstd::std_specs::convert::FromSpecImpl<Sala> for SalaResponse {
    open spec fn obeys_from_spec() -> bool {
        true
    }

    open spec fn from_spec(sala: Sala) -> Self {
        SalaResponse {
            id: sala.id,
            nombre: sala.nombre,
            capacidad: sala.capacidad,
            activa: sala.activa,
        }
    }
}

impl ReservaResponse {
    /// La respuesta de una reserva: copia sus campos y escribe el
    /// estado como texto.
    pub fn desde(reserva: &Reserva) -> (r: ReservaResponse)
        requires
            reserva.slot.inicio + 3600 <= i64::MAX,
        ensures
            r.id == reserva.id,
            r.empleado_id == reserva.empleado_id,
            r.slot_inicio == reserva.slot.inicio,
            r.slot_fin == reserva.slot.inicio + 3600,
            r.descripcion == reserva.descripcion,
            r.estado@ == texto_estado(reserva.estado),
    {
        ReservaResponse {
            id: reserva.id.clone(),
            empleado_id: reserva.empleado_id.clone(),
            slot_inicio: reserva.slot.inicio,
            slot_fin: reserva.slot.fin(),
            descripcion: reserva.descripcion.clone(),
            estado: estado_como_texto(&reserva.estado),
        }
    }
}

impl SlotInfo {
    /// La respuesta de un slot: inicio, fin y hora del dia.
    pub fn desde(slot: &Slot) -> (r: SlotInfo)
        requires
            slot.inicio + 3600 <= i64::MAX,
        ensures
            r.inicio == slot.inicio,
            r.fin == slot.inicio + 3600,
            r.hora == hora_de(slot.inicio as int),
    {
        SlotInfo { inicio: slot.inicio, fin: slot.fin(), hora: hora_de_exec(slot.inicio) }
    }
}

impl DisponibilidadEmpleadoResponse {
    /// La respuesta de una celda de disponibilidad.
    pub fn desde(celda: &DisponibilidadSlot) -> (r: DisponibilidadEmpleadoResponse)
        requires
            celda.slot.inicio + 3600 <= i64::MAX,
        ensures
            r.empleado_id == celda.empleado_id,
            r.empleado_nombre == celda.empleado_nombre,
            r.slot_inicio == celda.slot.inicio,
            r.slot_fin == celda.slot.inicio + 3600,
            r.disponible == celda.disponible,
            r.reserva_id == celda.reserva_id,
            r.descripcion_reserva == celda.descripcion_reserva,
    {
        DisponibilidadEmpleadoResponse {
            empleado_id: celda.empleado_id.clone(),
            empleado_nombre: celda.empleado_nombre.clone(),
            slot_inicio: celda.slot.inicio,
            slot_fin: celda.slot.fin(),
            disponible: celda.disponible,
            reserva_id: clona_opcional(&celda.reserva_id),
            descripcion_reserva: clona_opcional(&celda.descripcion_reserva),
        }
    }
}

/// Copia un texto opcional.
fn clona_opcional(o: &Option<String>) -> (r: Option<String>)
    ensures
        r == *o,
{
    match o {
        Some(s) => Some(s.clone()),
        None => None,
    }
}

/// Comprueba que a cada slot de la tabla le quepa el fin una hora mas
/// alla sin salirse del rango de instantes.
pub fn tabla_con_fines_validos(tabla: &TablaDisponibilidad) -> (b: bool)
    ensures
        b == {
            &&& forall|i: int|
                0 <= i < tabla.slots@.len() ==> (#[trigger] tabla.slots@[i]).inicio + 3600
                    <= i64::MAX
            &&& forall|i: int|
                0 <= i < tabla.disponibilidad@.len() ==> (#[trigger] tabla.disponibilidad@[i]).slot.inicio
                    + 3600 <= i64::MAX
        },
{
    let mut i: usize = 0;
    while i < tabla.slots.len()
        invariant
            i <= tabla.slots@.len(),
            forall|j: int|
                0 <= j < i ==> (#[trigger] tabla.slots@[j]).inicio + 3600 <= i64::MAX,
        decreases tabla.slots@.len() - i,
    {
        if tabla.slots[i].inicio > i64::MAX - 3600 {
            return false;
        }
        i = i + 1;
    }
    let mut k: usize = 0;
    while k < tabla.disponibilidad.len()
        invariant
            k <= tabla.disponibilidad@.len(),
            forall|j: int|
                0 <= j < tabla.slots@.len() ==> (#[trigger] tabla.slots@[j]).inicio + 3600
                    <= i64::MAX,
            forall|j: int|
                0 <= j < k ==> (#[trigger] tabla.disponibilidad@[j]).slot.inicio + 3600
                    <= i64::MAX,
        decreases tabla.disponibilidad@.len() - k,
    {
        if tabla.disponibilidad[k].slot.inicio > i64::MAX - 3600 {
            return false;
        }
        k = k + 1;
    }
    true
}

impl TablaDisponibilidadResponse {
    /// La respuesta de la tabla entera: la fecha pedida, los slots y
    /// las celdas convertidos uno a uno.
    pub fn desde(fecha: String, tabla: &TablaDisponibilidad) -> (r: TablaDisponibilidadResponse)
        requires
            forall|i: int|
                0 <= i < tabla.slots@.len() ==> (#[trigger] tabla.slots@[i]).inicio + 3600
                    <= i64::MAX,
            forall|i: int|
                0 <= i < tabla.disponibilidad@.len() ==> (#[trigger] tabla.disponibilidad@[i]).slot.inicio
                    + 3600 <= i64::MAX,
        ensures
            r.fecha == fecha,
            r.slots@.len() == tabla.slots@.len(),
            forall|i: int|
                0 <= i < tabla.slots@.len() ==> {
                    &&& (#[trigger] r.slots@[i]).inicio == tabla.slots@[i].inicio
                    &&& r.slots@[i].fin == tabla.slots@[i].inicio + 3600
                    &&& r.slots@[i].hora == hora_de(tabla.slots@[i].inicio as int)
                },
            r.disponibilidad@.len() == tabla.disponibilidad@.len(),
            forall|i: int|
                0 <= i < tabla.disponibilidad@.len() ==> {
                    let celda = #[trigger] tabla.disponibilidad@[i];
                    &&& r.disponibilidad@[i].empleado_id == celda.empleado_id
                    &&& r.disponibilidad@[i].empleado_nombre == celda.empleado_nombre
                    &&& r.disponibilidad@[i].slot_inicio == celda.slot.inicio
                    &&& r.disponibilidad@[i].slot_fin == celda.slot.inicio + 3600
                    &&& r.disponibilidad@[i].disponible == celda.disponible
                    &&& r.disponibilidad@[i].reserva_id == celda.reserva_id
                    &&& r.disponibilidad@[i].descripcion_reserva == celda.descripcion_reserva
                },
    {
        let mut slots: Vec<SlotInfo> = Vec::new();
        let mut i: usize = 0;
        while i < tabla.slots.len()
            invariant
                i <= tabla.slots@.len(),
                forall|j: int|
                    0 <= j < tabla.slots@.len() ==> (#[trigger] tabla.slots@[j]).inicio + 3600
                        <= i64::MAX,
                slots@.len() == i,
                forall|j: int|
                    0 <= j < i ==> {
                        &&& (#[trigger] slots@[j]).inicio == tabla.slots@[j].inicio
                        &&& slots@[j].fin == tabla.slots@[j].inicio + 3600
                        &&& slots@[j].hora == hora_de(tabla.slots@[j].inicio as int)
                    },
            decreases tabla.slots@.len() - i,
        {
            slots.push(SlotInfo::desde(&tabla.slots[i]));
            i = i + 1;
        }
        let mut disponibilidad: Vec<DisponibilidadEmpleadoResponse> = Vec::new();
        let mut k: usize = 0;
        while k < tabla.disponibilidad.len()
            invariant
                k <= tabla.disponibilidad@.len(),
                forall|j: int|
                    0 <= j < tabla.disponibilidad@.len() ==> (#[trigger] tabla.disponibilidad@[j]).slot.inicio
                        + 3600 <= i64::MAX,
                disponibilidad@.len() == k,
                forall|j: int|
                    0 <= j < k ==> {
                        let celda = #[trigger] tabla.disponibilidad@[j];
                        &&& disponibilidad@[j].empleado_id == celda.empleado_id
                        &&& disponibilidad@[j].empleado_nombre == celda.empleado_nombre
                        &&& disponibilidad@[j].slot_inicio == celda.slot.inicio
                        &&& disponibilidad@[j].slot_fin == celda.slot.inicio + 3600
                        &&& disponibilidad@[j].disponible == celda.disponible
                        &&& disponibilidad@[j].reserva_id == celda.reserva_id
                        &&& disponibilidad@[j].descripcion_reserva == celda.descripcion_reserva
                    },
            decreases tabla.disponibilidad@.len() - k,
        {
            disponibilidad.push(DisponibilidadEmpleadoResponse::desde(&tabla.disponibilidad[k]));
            k = k + 1;
        }
        TablaDisponibilidadResponse { fecha, slots, disponibilidad }
    }
}

} // verus!
