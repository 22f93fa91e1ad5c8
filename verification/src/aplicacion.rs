//! Servicios de aplicacion: los casos de uso, montados sobre los
//! puertos de salida. Generan los identificadores, comprueban los
//! conflictos y delegan las reglas de negocio en el dominio.

use vstd::prelude::*;
use vstd::string::StringExecFns;
use crate::disponibilidad::ocupado;
use crate::empleado::Empleado;
use crate::externos::{ahora_unix, nuevo_id};
use crate::puertos::{
    indice_reserva, lemma_indice_empleado, lemma_indice_reserva, lemma_indice_sala,
    upsert_reserva, EmpleadoRepository, EmpleadoService, ReservaRepository, ReservaService,
    SalaRepository, SalaService,
};
use crate::reserva::{EstadoReserva, Reserva, ReservaError};
use crate::sala::Sala;
use crate::slot::Slot;
use crate::texto::es_blanca;
use crate::tiempo::instante_acotado;

verus! {

/// Caso de uso de reservas sobre un almacen cualquiera.
pub struct ReservaServiceImpl<R: ReservaRepository> {
    repository: R,
}

/// Caso de uso de empleados sobre un almacen cualquiera.
pub struct EmpleadoServiceImpl<R: EmpleadoRepository> {
    repository: R,
}

/// Caso de uso de salas sobre un almacen cualquiera.
pub struct SalaServiceImpl<R: SalaRepository> {
    repository: R,
}

/// El texto con el que se rechaza una reserva que no pasa la
/// validacion del dominio.
pub open spec fn mensaje_validacion(e: ReservaError) -> Seq<char> {
    match e {
        ReservaError::SlotEnElPasado => "Error de validación: SlotEnElPasado"@,
        ReservaError::SlotFueraDeHorarioLaboral => "Error de validación: SlotFueraDeHorarioLaboral"@,
        ReservaError::EmpleadoYaTieneReservaEnEsteSlot => "Error de validación: EmpleadoYaTieneReservaEnEsteSlot"@,
        ReservaError::DescripcionVacia => "Error de validación: DescripcionVacia"@,
    }
}

/// Escribe el error de validacion como texto.
fn texto_validacion(e: &ReservaError) -> (r: String)
    ensures
        r@ == mensaje_validacion(*e),
{
    match e {
        ReservaError::SlotEnElPasado => String::from_str("Error de validación: SlotEnElPasado"),
        ReservaError::SlotFueraDeHorarioLaboral => String::from_str(
            "Error de validación: SlotFueraDeHorarioLaboral",
        ),
        ReservaError::EmpleadoYaTieneReservaEnEsteSlot => String::from_str(
            "Error de validación: EmpleadoYaTieneReservaEnEsteSlot",
        ),
        ReservaError::DescripcionVacia => String::from_str("Error de validación: DescripcionVacia"),
    }
}

impl<R: ReservaRepository> ReservaServiceImpl<R> {
    /// Monta el caso de uso sobre el almacen dado.
    pub fn new(repository: R) -> (s: Self)
        ensures
            s.reservas() == repository.reservas(),
    {
        Self { repository }
    }

    /// Como `crear_reserva`, pero contra un instante dado en lugar del
    /// reloj: crea la reserva exactamente cuando el empleado esta libre
    /// en el slot, el slot empieza estrictamente despues de `ahora`,
    /// cae en horario laboral y la descripcion no esta en blanco.
    pub fn crear_reserva_con_instante(
        &mut self,
        empleado_id: String,
        slot: Slot,
        descripcion: String,
        ahora: i64,
    ) -> (r: Result<Reserva, String>)
        requires
            instante_acotado(slot.inicio as int),
        ensures
            r is Ok <==> {
                &&& !ocupado(empleado_id@, slot, old(self).reservas())
                &&& slot.inicio > ahora
                &&& slot.es_horario_laboral_spec()
                &&& !es_blanca(descripcion@)
            },
            r matches Ok(res) ==> {
                &&& res.empleado_id == empleado_id
                &&& res.slot == slot
                &&& res.descripcion == descripcion
                &&& res.estado == EstadoReserva::Pendiente
                &&& res.id@.len() == 36
                &&& final(self).reservas() == upsert_reserva(old(self).reservas(), res)
            },
            r is Err ==> final(self).reservas() == old(self).reservas(),
            ocupado(empleado_id@, slot, old(self).reservas()) ==> (r matches Err(m) && m@
                == "El empleado "@ + empleado_id@ + " ya tiene una reserva en el slot "@
                + crate::slot::legible(slot.inicio as int)),
            !ocupado(empleado_id@, slot, old(self).reservas()) && slot.inicio <= ahora ==> (
            r matches Err(m) && m@ == mensaje_validacion(ReservaError::SlotEnElPasado)),
            !ocupado(empleado_id@, slot, old(self).reservas()) && slot.inicio > ahora
                && !slot.es_horario_laboral_spec() ==> (r matches Err(m) && m@
                == mensaje_validacion(ReservaError::SlotFueraDeHorarioLaboral)),
            !ocupado(empleado_id@, slot, old(self).reservas()) && slot.inicio > ahora
                && slot.es_horario_laboral_spec() && es_blanca(descripcion@) ==> (r matches Err(m)
                && m@ == mensaje_validacion(ReservaError::DescripcionVacia)),
    {
        let id = nuevo_id();
        let hay_conflicto = match self.repository.existe_para_empleado_en_slot(
            empleado_id.as_str(),
            &slot,
        ) {
            Ok(b) => b,
            Err(_) => {
                proof {
                    assert(false);
                }
                true
            },
        };
        if hay_conflicto {
            let mut mensaje = String::from_str("El empleado ");
            mensaje.append(empleado_id.as_str());
            mensaje.append(" ya tiene una reserva en el slot ");
            let texto_slot = slot.formato_legible();
            mensaje.append(texto_slot.as_str());
            proof {
                assert(mensaje@ =~= "El empleado "@ + empleado_id@
                    + " ya tiene una reserva en el slot "@ + crate::slot::legible(
                    slot.inicio as int,
                ));
            }
            return Err(mensaje);
        }
        match Reserva::nueva_con_instante(id, empleado_id, slot, descripcion, ahora) {
            Err(e) => Err(texto_validacion(&e)),
            Ok(res) => {
                match self.repository.guardar(&res) {
                    Ok(()) => Ok(res),
                    Err(m) => {
                        proof {
                            assert(false);
                        }
                        Err(m)
                    },
                }
            },
        }
    }
}

impl<R: ReservaRepository> ReservaService for ReservaServiceImpl<R> {
    closed spec fn reservas(&self) -> Seq<Reserva> {
        self.repository.reservas()
    }

    fn crear_reserva(&mut self, empleado_id: String, slot: Slot, descripcion: String) -> (r: Result<
        Reserva,
        String,
    >) {
        let ahora = ahora_unix();
        self.crear_reserva_con_instante(empleado_id, slot, descripcion, ahora)
    }

    fn obtener_reserva(&self, id: &str) -> (r: Result<Option<Reserva>, String>) {
        self.repository.obtener(id)
    }

    fn listar_reservas(&self) -> (r: Result<Vec<Reserva>, String>) {
        self.repository.listar()
    }

    fn listar_reservas_empleado(&self, empleado_id: &str) -> (r: Result<Vec<Reserva>, String>) {
        self.repository.listar_por_empleado(empleado_id)
    }

    fn confirmar_reserva(&mut self, id: &str) -> (r: Result<Reserva, String>) {
        proof {
            lemma_indice_reserva(self.repository.reservas(), id@);
        }
        let encontrada = match self.repository.obtener(id) {
            Ok(o) => o,
            Err(_) => {
                proof {
                    assert(false);
                }
                None
            },
        };
        match encontrada {
            None => Err(String::from_str("Reserva no encontrada")),
            Some(mut reserva) => {
                reserva.confirmar();
                match self.repository.actualizar(&reserva) {
                    Ok(()) => Ok(reserva),
                    Err(m) => {
                        proof {
                            assert(false);
                        }
                        Err(m)
                    },
                }
            },
        }
    }

    fn cancelar_reserva(&mut self, id: &str) -> (r: Result<Reserva, String>) {
        proof {
            lemma_indice_reserva(self.repository.reservas(), id@);
        }
        let encontrada = match self.repository.obtener(id) {
            Ok(o) => o,
            Err(_) => {
                proof {
                    assert(false);
                }
                None
            },
        };
        match encontrada {
            None => Err(String::from_str("Reserva no encontrada")),
            Some(mut reserva) => {
                reserva.cancelar();
                match self.repository.actualizar(&reserva) {
                    Ok(()) => Ok(reserva),
                    Err(m) => {
                        proof {
                            assert(false);
                        }
                        Err(m)
                    },
                }
            },
        }
    }
}

impl<R: EmpleadoRepository> EmpleadoServiceImpl<R> {
    /// Monta el caso de uso sobre el almacen dado.
    pub fn new(repository: R) -> (s: Self)
        ensures
            s.empleados() == repository.empleados(),
    {
        Self { repository }
    }
}

impl<R: EmpleadoRepository> EmpleadoService for EmpleadoServiceImpl<R> {
    closed spec fn empleados(&self) -> Seq<Empleado> {
        self.repository.empleados()
    }

    fn crear_empleado(&mut self, nombre: String, email: String) -> (r: Result<Empleado, String>) {
        let id = nuevo_id();
        let empleado = Empleado::new(id, nombre, email);
        match self.repository.guardar(&empleado) {
            Ok(()) => Ok(empleado),
            Err(m) => {
                proof {
                    assert(false);
                }
                Err(m)
            },
        }
    }

    fn obtener_empleado(&self, id: &str) -> (r: Result<Option<Empleado>, String>) {
        self.repository.obtener(id)
    }

    fn listar_empleados(&self) -> (r: Result<Vec<Empleado>, String>) {
        self.repository.listar()
    }

    fn desactivar_empleado(&mut self, id: &str) -> (r: Result<Empleado, String>) {
        proof {
            lemma_indice_empleado(self.repository.empleados(), id@);
        }
        let encontrado = match self.repository.obtener(id) {
            Ok(o) => o,
            Err(_) => {
                proof {
                    assert(false);
                }
                None
            },
        };
        match encontrado {
            None => Err(String::from_str("Empleado no encontrado")),
            Some(mut empleado) => {
                empleado.desactivar();
                match self.repository.actualizar(&empleado) {
                    Ok(()) => Ok(empleado),
                    Err(m) => {
                        proof {
                            assert(false);
                        }
                        Err(m)
                    },
                }
            },
        }
    }

    fn activar_empleado(&mut self, id: &str) -> (r: Result<Empleado, String>) {
        proof {
            lemma_indice_empleado(self.repository.empleados(), id@);
        }
        let encontrado = match self.repository.obtener(id) {
            Ok(o) => o,
            Err(_) => {
                proof {
                    assert(false);
                }
                None
            },
        };
        match encontrado {
            None => Err(String::from_str("Empleado no encontrado")),
            Some(mut empleado) => {
                empleado.activar();
                match self.repository.actualizar(&empleado) {
                    Ok(()) => Ok(empleado),
                    Err(m) => {
                        proof {
                            assert(false);
                        }
                        Err(m)
                    },
                }
            },
        }
    }
}

impl<R: SalaRepository> SalaServiceImpl<R> {
    /// Monta el caso de uso sobre el almacen dado.
    pub fn new(repository: R) -> (s: Self)
        ensures
            s.salas() == repository.salas(),
    {
        Self { repository }
    }
}

impl<R: SalaRepository> SalaService for SalaServiceImpl<R> {
    closed spec fn salas(&self) -> Seq<Sala> {
        self.repository.salas()
    }

    fn crear_sala(&mut self, nombre: String, capacidad: u32) -> (r: Result<Sala, String>) {
        let id = nuevo_id();
        match Sala::new(id, nombre, capacidad) {
            Err(m) => Err(m),
            Ok(sala) => {
                match self.repository.guardar(&sala) {
                    Ok(()) => Ok(sala),
                    Err(m) => {
                        proof {
                            assert(false);
                        }
                        Err(m)
                    },
                }
            },
        }
    }

    fn listar_salas(&self) -> (r: Result<Vec<Sala>, String>) {
        self.repository.listar()
    }

    fn obtener_sala(&self, id: &str) -> (r: Result<Option<Sala>, String>) {
        self.repository.obtener(id)
    }

    fn activar_sala(&mut self, id: &str) -> (r: Result<(), String>) {
        proof {
            lemma_indice_sala(self.repository.salas(), id@);
        }
        let encontrada = match self.repository.obtener(id) {
            Ok(o) => o,
            Err(_) => {
                proof {
                    assert(false);
                }
                None
            },
        };
        match encontrada {
            None => Err(String::from_str("Sala no encontrada")),
            Some(mut sala) => {
                sala.activar();
                match self.repository.actualizar(&sala) {
                    Ok(()) => Ok(()),
                    Err(m) => {
                        proof {
                            assert(false);
                        }
                        Err(m)
                    },
                }
            },
        }
    }

    fn desactivar_sala(&mut self, id: &str) -> (r: Result<(), String>) {
        proof {
            lemma_indice_sala(self.repository.salas(), id@);
        }
        let encontrada = match self.repository.obtener(id) {
            Ok(o) => o,
            Err(_) => {
                proof {
                    assert(false);
                }
                None
            },
        };
        match encontrada {
            None => Err(String::from_str("Sala no encontrada")),
            Some(mut sala) => {
                sala.desactivar();
                match self.repository.actualizar(&sala) {
                    Ok(()) => Ok(()),
                    Err(m) => {
                        proof {
                            assert(false);
                        }
                        Err(m)
                    },
                }
            },
        }
    }
}

} // verus!
