//! Entidad de dominio: reserva de un empleado para un slot de tiempo,
//! con una descripcion y un estado de ciclo de vida.

use vstd::prelude::*;
use crate::externos::ahora_unix;
use crate::slot::Slot;
use crate::texto::{es_blanca, es_texto_blanco};

verus! {

/// Estados posibles de una reserva.
#[derive(Debug, PartialEq, Eq, Structural)]
pub enum EstadoReserva {
    Pendiente,
    Confirmada,
    Cancelada,
}

impl Clone for EstadoReserva {
    fn clone(&self) -> (r: Self)
        ensures
            r == *self,
    {
        match self {
            EstadoReserva::Pendiente => EstadoReserva::Pendiente,
            EstadoReserva::Confirmada => EstadoReserva::Confirmada,
            EstadoReserva::Cancelada => EstadoReserva::Cancelada,
        }
    }
}

/// Errores de validacion al crear una reserva.
#[derive(Debug, PartialEq, Eq, Structural)]
pub enum ReservaError {
    SlotEnElPasado,
    SlotFueraDeHorarioLaboral,
    EmpleadoYaTieneReservaEnEsteSlot,
    DescripcionVacia,
}

#[derive(Debug, PartialEq)]
pub struct Reserva {
    pub id: String,
    pub empleado_id: String,
    pub slot: Slot,
    pub descripcion: String,
    pub estado: EstadoReserva,
}

impl Reserva {
    /// Una reserva esta activa mientras no este cancelada.
    pub open spec fn esta_activa_spec(self) -> bool {
        self.estado != EstadoReserva::Cancelada
    }

    /// Construye una reserva comprobando las reglas de negocio contra el
    /// instante `ahora`, en este orden: el slot debe empezar
    /// estrictamente despues de `ahora`, debe caer en horario laboral, y
    /// la descripcion no puede quedar en blanco. Si pasa las tres, la
    /// reserva nace pendiente.
    pub fn nueva_con_instante(
        id: String,
        empleado_id: String,
        slot: Slot,
        descripcion: String,
        ahora: i64,
    ) -> (r: Result<Reserva, ReservaError>)
        ensures
            slot.inicio <= ahora ==> r == Err::<Reserva, ReservaError>(
                ReservaError::SlotEnElPasado,
            ),
            slot.inicio > ahora && !slot.es_horario_laboral_spec() ==> r == Err::<
                Reserva,
                ReservaError,
            >(ReservaError::SlotFueraDeHorarioLaboral),
            slot.inicio > ahora && slot.es_horario_laboral_spec() && es_blanca(descripcion@)
                ==> r == Err::<Reserva, ReservaError>(ReservaError::DescripcionVacia),
            slot.inicio > ahora && slot.es_horario_laboral_spec() && !es_blanca(descripcion@)
                ==> (r matches Ok(res) && res == (Reserva {
                id,
                empleado_id,
                slot,
                descripcion,
                estado: EstadoReserva::Pendiente,
            })),
    {
        if slot.inicio <= ahora {
            return Err(ReservaError::SlotEnElPasado);
        }
        if !slot.es_horario_laboral() {
            return Err(ReservaError::SlotFueraDeHorarioLaboral);
        }
        if es_texto_blanco(descripcion.as_str()) {
            return Err(ReservaError::DescripcionVacia);
        }
        Ok(Reserva { id, empleado_id, slot, descripcion, estado: EstadoReserva::Pendiente })
    }

    /// Construye una reserva validando contra el reloj del sistema: el
    /// slot debe ser estrictamente futuro en el momento de la llamada.
    /// Lo que no depende del reloj queda dicho para todo resultado.
    pub fn new(id: String, empleado_id: String, slot: Slot, descripcion: String) -> (r: Result<
        Reserva,
        ReservaError,
    >)
        ensures
            r matches Ok(res) ==> res == (Reserva {
                id,
                empleado_id,
                slot,
                descripcion,
                estado: EstadoReserva::Pendiente,
            }) && slot.es_horario_laboral_spec() && !es_blanca(descripcion@),
            r == Err::<Reserva, ReservaError>(ReservaError::SlotFueraDeHorarioLaboral)
                ==> slot.inicio > 0 && !slot.es_horario_laboral_spec(),
            r == Err::<Reserva, ReservaError>(ReservaError::DescripcionVacia)
                ==> slot.es_horario_laboral_spec() && es_blanca(descripcion@),
            r == Err::<Reserva, ReservaError>(ReservaError::EmpleadoYaTieneReservaEnEsteSlot)
                ==> false,
            slot.inicio <= 0 ==> r == Err::<Reserva, ReservaError>(ReservaError::SlotEnElPasado),
            !slot.es_horario_laboral_spec() ==> r is Err,
            es_blanca(descripcion@) ==> r is Err,
    {
        let ahora = ahora_unix();
        Reserva::nueva_con_instante(id, empleado_id, slot, descripcion, ahora)
    }

    /// Pasa la reserva a confirmada, cualquiera que fuese su estado.
    pub fn confirmar(&mut self)
        ensures
            *final(self) == (Reserva { estado: EstadoReserva::Confirmada, ..*old(self) }),
    {
        self.estado = EstadoReserva::Confirmada;
    }

    /// Pasa la reserva a cancelada, cualquiera que fuese su estado.
    pub fn cancelar(&mut self)
        ensures
            *final(self) == (Reserva { estado: EstadoReserva::Cancelada, ..*old(self) }),
    {
        self.estado = EstadoReserva::Cancelada;
    }

    /// Verdadero mientras la reserva no este cancelada.
    pub fn esta_activa(&self) -> (b: bool)
        ensures
            b == self.esta_activa_spec(),
    {
        self.estado != EstadoReserva::Cancelada
    }
}

impl Clone for Reserva {
    fn clone(&self) -> (r: Self)
        ensures
            r == *self,
    {
        Reserva {
            id: self.id.clone(),
            empleado_id: self.empleado_id.clone(),
            slot: self.slot,
            descripcion: self.descripcion.clone(),
            estado: self.estado.clone(),
        }
    }
}

} // verus!
