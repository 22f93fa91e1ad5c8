//! Puertos: los contratos del sistema. Los puertos de salida dicen que
//! debe ofrecer un almacen de cada entidad; los de entrada, que ofrecen
//! los casos de uso. Cada implementacion queda atada al mismo contrato.

use vstd::prelude::*;
use crate::disponibilidad::{activas_de_empleado, ocupado};
use crate::empleado::Empleado;
use crate::reserva::Reserva;
use crate::sala::Sala;
use crate::slot::Slot;
use crate::texto::es_blanca;

verus! {

/// Indice del primer empleado de la lista con ese id, o `-1`.
pub open spec fn indice_empleado(empleados: Seq<Empleado>, id: Seq<char>) -> int
    decreases empleados.len(),
{
    if empleados.len() == 0 {
        -1
    } else if empleados[0].id@ == id {
        0
    } else {
        let resto = indice_empleado(empleados.drop_first(), id);
        if resto < 0 {
            -1
        } else {
            resto + 1
        }
    }
}

/// Indice de la primera reserva de la lista con ese id, o `-1`.
pub open spec fn indice_reserva(reservas: Seq<Reserva>, id: Seq<char>) -> int
    decreases reservas.len(),
{
    if reservas.len() == 0 {
        -1
    } else if reservas[0].id@ == id {
        0
    } else {
        let resto = indice_reserva(reservas.drop_first(), id);
        if resto < 0 {
            -1
        } else {
            resto + 1
        }
    }
}

/// Indice de la primera sala de la lista con ese id, o `-1`.
pub open spec fn indice_sala(salas: Seq<Sala>, id: Seq<char>) -> int
    decreases salas.len(),
{
    if salas.len() == 0 {
        -1
    } else if salas[0].id@ == id {
        0
    } else {
        let resto = indice_sala(salas.drop_first(), id);
        if resto < 0 {
            -1
        } else {
            resto + 1
        }
    }
}

/// El indice por id de empleado es `-1` exactamente cuando el id no
/// esta; si no, apunta al primero que lo lleva.
pub proof fn lemma_indice_empleado(empleados: Seq<Empleado>, id: Seq<char>)
    ensures
        -1 <= indice_empleado(empleados, id) < empleados.len(),
        indice_empleado(empleados, id) == -1 ==> forall|i: int|
            0 <= i < empleados.len() ==> (#[trigger] empleados[i]).id@ != id,
        indice_empleado(empleados, id) >= 0 ==> {
            let k = indice_empleado(empleados, id);
            &&& empleados[k].id@ == id
            &&& forall|i: int| 0 <= i < k ==> (#[trigger] empleados[i]).id@ != id
        },
    decreases empleados.len(),
{
    if empleados.len() == 0 {
    } else if empleados[0].id@ == id {
    } else {
        let cola = empleados.drop_first();
        lemma_indice_empleado(cola, id);
        assert(forall|i: int| 0 <= i < cola.len() ==> #[trigger] cola[i] == empleados[i + 1]);
        assert forall|i: int|
            1 <= i < empleados.len() && cola[i - 1].id@ != id implies (#[trigger] empleados[i]).id@
            != id by {
            assert(empleados[i] == cola[i - 1]);
        }
    }
}

/// Si nada antes de `i` lleva el id y `empleados[i]` lo lleva, `i` es
/// el primero.
pub proof fn lemma_indice_empleado_en(empleados: Seq<Empleado>, id: Seq<char>, i: int)
    requires
        0 <= i < empleados.len(),
        empleados[i].id@ == id,
        forall|j: int| 0 <= j < i ==> (#[trigger] empleados[j]).id@ != id,
    ensures
        indice_empleado(empleados, id) == i,
{
    lemma_indice_empleado(empleados, id);
    let k = indice_empleado(empleados, id);
    if k == -1 {
        assert(empleados[i].id@ != id);
        assert(false);
    } else if k < i {
        assert(empleados[k].id@ != id);
        assert(false);
    } else if k > i {
        assert(empleados[i].id@ != id);
        assert(false);
    }
}

/// El indice por id de reserva es `-1` exactamente cuando el id no
/// esta; si no, apunta a la primera que lo lleva.
pub proof fn lemma_indice_reserva(reservas: Seq<Reserva>, id: Seq<char>)
    ensures
        -1 <= indice_reserva(reservas, id) < reservas.len(),
        indice_reserva(reservas, id) == -1 ==> forall|i: int|
            0 <= i < reservas.len() ==> (#[trigger] reservas[i]).id@ != id,
        indice_reserva(reservas, id) >= 0 ==> {
            let k = indice_reserva(reservas, id);
            &&& reservas[k].id@ == id
            &&& forall|i: int| 0 <= i < k ==> (#[trigger] reservas[i]).id@ != id
        },
    decreases reservas.len(),
{
    if reservas.len() == 0 {
    } else if reservas[0].id@ == id {
    } else {
        let cola = reservas.drop_first();
        lemma_indice_reserva(cola, id);
        assert(forall|i: int| 0 <= i < cola.len() ==> #[trigger] cola[i] == reservas[i + 1]);
        assert forall|i: int|
            1 <= i < reservas.len() && cola[i - 1].id@ != id implies (#[trigger] reservas[i]).id@
            != id by {
            assert(reservas[i] == cola[i - 1]);
        }
    }
}

/// Si nada antes de `i` lleva el id y `reservas[i]` lo lleva, `i` es la
/// primera.
pub proof fn lemma_indice_reserva_en(reservas: Seq<Reserva>, id: Seq<char>, i: int)
    requires
        0 <= i < reservas.len(),
        reservas[i].id@ == id,
        forall|j: int| 0 <= j < i ==> (#[trigger] reservas[j]).id@ != id,
    ensures
        indice_reserva(reservas, id) == i,
{
    lemma_indice_reserva(reservas, id);
    let k = indice_reserva(reservas, id);
    if k == -1 {
        assert(reservas[i].id@ != id);
        assert(false);
    } else if k < i {
        assert(reservas[k].id@ != id);
        assert(false);
    } else if k > i {
        assert(reservas[i].id@ != id);
        assert(false);
    }
}

/// El indice por id de sala es `-1` exactamente cuando el id no esta;
/// si no, apunta a la primera que lo lleva.
pub proof fn lemma_indice_sala(salas: Seq<Sala>, id: Seq<char>)
    ensures
        -1 <= indice_sala(salas, id) < salas.len(),
        indice_sala(salas, id) == -1 ==> forall|i: int|
            0 <= i < salas.len() ==> (#[trigger] salas[i]).id@ != id,
        indice_sala(salas, id) >= 0 ==> {
            let k = indice_sala(salas, id);
            &&& salas[k].id@ == id
            &&& forall|i: int| 0 <= i < k ==> (#[trigger] salas[i]).id@ != id
        },
    decreases salas.len(),
{
    if salas.len() == 0 {
    } else if salas[0].id@ == id {
    } else {
        let cola = salas.drop_first();
        lemma_indice_sala(cola, id);
        assert(forall|i: int| 0 <= i < cola.len() ==> #[trigger] cola[i] == salas[i + 1]);
        assert forall|i: int|
            1 <= i < salas.len() && cola[i - 1].id@ != id implies (#[trigger] salas[i]).id@
            != id by {
            assert(salas[i] == cola[i - 1]);
        }
    }
}

/// Si nada antes de `i` lleva el id y `salas[i]` lo lleva, `i` es la
/// primera.
pub proof fn lemma_indice_sala_en(salas: Seq<Sala>, id: Seq<char>, i: int)
    requires
        0 <= i < salas.len(),
        salas[i].id@ == id,
        forall|j: int| 0 <= j < i ==> (#[trigger] salas[j]).id@ != id,
    ensures
        indice_sala(salas, id) == i,
{
    lemma_indice_sala(salas, id);
    let k = indice_sala(salas, id);
    if k == -1 {
        assert(salas[i].id@ != id);
        assert(false);
    } else if k < i {
        assert(salas[k].id@ != id);
        assert(false);
    } else if k > i {
        assert(salas[i].id@ != id);
        assert(false);
    }
}

/// Guarda la entidad: si ya hay un empleado con su id lo sustituye, y
/// si no la anade al final.
pub open spec fn upsert_empleado(empleados: Seq<Empleado>, e: Empleado) -> Seq<Empleado> {
    let k = indice_empleado(empleados, e.id@);
    if k < 0 {
        empleados.push(e)
    } else {
        empleados.update(k, e)
    }
}

/// Guarda la entidad: si ya hay una reserva con su id la sustituye, y
/// si no la anade al final.
pub open spec fn upsert_reserva(reservas: Seq<Reserva>, r: Reserva) -> Seq<Reserva> {
    let k = indice_reserva(reservas, r.id@);
    if k < 0 {
        reservas.push(r)
    } else {
        reservas.update(k, r)
    }
}

/// Guarda la entidad: si ya hay una sala con su id la sustituye, y si
/// no la anade al final.
pub open spec fn upsert_sala(salas: Seq<Sala>, s: Sala) -> Seq<Sala> {
    let k = indice_sala(salas, s.id@);
    if k < 0 {
        salas.push(s)
    } else {
        salas.update(k, s)
    }
}

/// Las reservas de la lista que caen en el slot y siguen activas.
pub open spec fn activas_en_slot(reservas: Seq<Reserva>, slot: Slot) -> Seq<Reserva>
    decreases reservas.len(),
{
    if reservas.len() == 0 {
        Seq::empty()
    } else {
        activas_en_slot(reservas.drop_last(), slot) + if reservas.last().slot == slot
            && reservas.last().esta_activa_spec() {
            seq![reservas.last()]
        } else {
            Seq::empty()
        }
    }
}

/// Puerto de salida: almacen de empleados.
pub trait EmpleadoRepository: Sized {
    /// Los empleados guardados, en orden de primera llegada.
    spec fn empleados(&self) -> Seq<Empleado>;

    /// Guarda el empleado, sustituyendo al que tuviera su id.
    fn guardar(&mut self, empleado: &Empleado) -> (r: Result<(), String>)
        ensures
            r is Ok,
            final(self).empleados() == upsert_empleado(old(self).empleados(), *empleado),
    ;

    /// El primer empleado guardado con ese id, si lo hay.
    fn obtener(&self, id: &str) -> (r: Result<Option<Empleado>, String>)
        ensures
            r matches Ok(o),
            r matches Ok(o) ==> {
                let k = indice_empleado(self.empleados(), id@);
                if k < 0 {
                    o is None
                } else {
                    o == Some(self.empleados()[k])
                }
            },
    ;

    /// Todos los empleados guardados.
    fn listar(&self) -> (r: Result<Vec<Empleado>, String>)
        ensures
            r matches Ok(v) && v@ == self.empleados(),
    ;

    /// Sustituye al empleado guardado con su id; si no hay ninguno, lo
    /// dice sin tocar nada.
    fn actualizar(&mut self, empleado: &Empleado) -> (r: Result<(), String>)
        ensures
            indice_empleado(old(self).empleados(), empleado.id@) < 0 ==> r is Err && final(self).empleados() == old(self).empleados(),
            indice_empleado(old(self).empleados(), empleado.id@) >= 0 ==> r is Ok && final(self).empleados() == old(self).empleados().update(
                indice_empleado(old(self).empleados(), empleado.id@),
                *empleado,
            ),
    ;

    /// Si hay un empleado guardado con ese id.
    fn existe(&self, id: &str) -> (r: Result<bool, String>)
        ensures
            r matches Ok(b) && b == (indice_empleado(self.empleados(), id@) >= 0),
    ;
}

/// Puerto de salida: almacen de reservas.
pub trait ReservaRepository: Sized {
    /// Las reservas guardadas, en orden de primera llegada.
    spec fn reservas(&self) -> Seq<Reserva>;

    /// Guarda la reserva, sustituyendo a la que tuviera su id.
    fn guardar(&mut self, reserva: &Reserva) -> (r: Result<(), String>)
        ensures
            r is Ok,
            final(self).reservas() == upsert_reserva(old(self).reservas(), *reserva),
    ;

    /// La primera reserva guardada con ese id, si la hay.
    fn obtener(&self, id: &str) -> (r: Result<Option<Reserva>, String>)
        ensures
            r matches Ok(o),
            r matches Ok(o) ==> {
                let k = indice_reserva(self.reservas(), id@);
                if k < 0 {
                    o is None
                } else {
                    o == Some(self.reservas()[k])
                }
            },
    ;

    /// Todas las reservas guardadas.
    fn listar(&self) -> (r: Result<Vec<Reserva>, String>)
        ensures
            r matches Ok(v) && v@ == self.reservas(),
    ;

    /// Las reservas activas del empleado, en orden.
    fn listar_por_empleado(&self, empleado_id: &str) -> (r: Result<Vec<Reserva>, String>)
        ensures
            r matches Ok(v) && v@ == activas_de_empleado(self.reservas(), empleado_id@),
    ;

    /// Las reservas activas del slot, en orden.
    fn listar_por_slot(&self, slot: &Slot) -> (r: Result<Vec<Reserva>, String>)
        ensures
            r matches Ok(v) && v@ == activas_en_slot(self.reservas(), *slot),
    ;

    /// Sustituye a la reserva guardada con su id; si no hay ninguna, lo
    /// dice sin tocar nada.
    fn actualizar(&mut self, reserva: &Reserva) -> (r: Result<(), String>)
        ensures
            indice_reserva(old(self).reservas(), reserva.id@) < 0 ==> r is Err && final(self).reservas() == old(self).reservas(),
            indice_reserva(old(self).reservas(), reserva.id@) >= 0 ==> r is Ok && final(self).reservas() == old(self).reservas().update(
                indice_reserva(old(self).reservas(), reserva.id@),
                *reserva,
            ),
    ;

    /// Si hay una reserva guardada con ese id.
    fn existe(&self, id: &str) -> (r: Result<bool, String>)
        ensures
            r matches Ok(b) && b == (indice_reserva(self.reservas(), id@) >= 0),
    ;

    /// Si el empleado tiene alguna reserva activa en el slot.
    fn existe_para_empleado_en_slot(&self, empleado_id: &str, slot: &Slot) -> (r: Result<
        bool,
        String,
    >)
        ensures
            r matches Ok(b) && b == ocupado(empleado_id@, *slot, self.reservas()),
    ;
}

/// Puerto de salida: almacen de salas.
pub trait SalaRepository: Sized {
    /// Las salas guardadas, en orden de primera llegada.
    spec fn salas(&self) -> Seq<Sala>;

    /// Guarda la sala, sustituyendo a la que tuviera su id.
    fn guardar(&mut self, sala: &Sala) -> (r: Result<(), String>)
        ensures
            r is Ok,
            final(self).salas() == upsert_sala(old(self).salas(), *sala),
    ;

    /// La primera sala guardada con ese id, si la hay.
    fn obtener(&self, id: &str) -> (r: Result<Option<Sala>, String>)
        ensures
            r matches Ok(o),
            r matches Ok(o) ==> {
                let k = indice_sala(self.salas(), id@);
                if k < 0 {
                    o is None
                } else {
                    o == Some(self.salas()[k])
                }
            },
    ;

    /// Todas las salas guardadas.
    fn listar(&self) -> (r: Result<Vec<Sala>, String>)
        ensures
            r matches Ok(v) && v@ == self.salas(),
    ;

    /// Sustituye a la sala guardada con su id; si no hay ninguna, lo
    /// dice sin tocar nada.
    fn actualizar(&mut self, sala: &Sala) -> (r: Result<(), String>)
        ensures
            indice_sala(old(self).salas(), sala.id@) < 0 ==> r is Err && final(self).salas() == old(self).salas(),
            indice_sala(old(self).salas(), sala.id@) >= 0 ==> r is Ok && final(self).salas() == old(self).salas().update(indice_sala(old(self).salas(), sala.id@), *sala),
    ;
}

/// Puerto de entrada: casos de uso sobre empleados.
pub trait EmpleadoService: Sized {
    /// Los empleados que el servicio conoce.
    spec fn empleados(&self) -> Seq<Empleado>;

    /// Da de alta un empleado activo con un id nuevo.
    fn crear_empleado(&mut self, nombre: String, email: String) -> (r: Result<Empleado, String>)
        ensures
            r matches Ok(e) && e.nombre == nombre && e.email == email && e.activo && e.id@.len()
                == 36 && final(self).empleados() == upsert_empleado(old(self).empleados(), e),
    ;

    /// El primer empleado con ese id, si lo hay.
    fn obtener_empleado(&self, id: &str) -> (r: Result<Option<Empleado>, String>)
        ensures
            r matches Ok(o),
            r matches Ok(o) ==> {
                let k = indice_empleado(self.empleados(), id@);
                if k < 0 {
                    o is None
                } else {
                    o == Some(self.empleados()[k])
                }
            },
    ;

    /// Todos los empleados.
    fn listar_empleados(&self) -> (r: Result<Vec<Empleado>, String>)
        ensures
            r matches Ok(v) && v@ == self.empleados(),
    ;

    /// Apaga `activo` en el empleado con ese id y lo devuelve; si no lo
    /// hay, lo dice sin tocar nada.
    fn desactivar_empleado(&mut self, id: &str) -> (r: Result<Empleado, String>)
        ensures
            indice_empleado(old(self).empleados(), id@) < 0 ==> r is Err && final(self).empleados()
                == old(self).empleados(),
            indice_empleado(old(self).empleados(), id@) >= 0 ==> {
                let k = indice_empleado(old(self).empleados(), id@);
                let cambiado = Empleado { activo: false, ..old(self).empleados()[k] };
                r == Ok::<Empleado, String>(cambiado) && final(self).empleados() == old(self).empleados().update(k, cambiado)
            },
    ;

    /// Enciende `activo` en el empleado con ese id y lo devuelve; si no
    /// lo hay, lo dice sin tocar nada.
    fn activar_empleado(&mut self, id: &str) -> (r: Result<Empleado, String>)
        ensures
            indice_empleado(old(self).empleados(), id@) < 0 ==> r is Err && final(self).empleados()
                == old(self).empleados(),
            indice_empleado(old(self).empleados(), id@) >= 0 ==> {
                let k = indice_empleado(old(self).empleados(), id@);
                let cambiado = Empleado { activo: true, ..old(self).empleados()[k] };
                r == Ok::<Empleado, String>(cambiado) && final(self).empleados() == old(self).empleados().update(k, cambiado)
            },
    ;
}

/// Puerto de entrada: casos de uso sobre reservas.
pub trait ReservaService: Sized {
    /// Las reservas que el servicio conoce.
    spec fn reservas(&self) -> Seq<Reserva>;

    /// Crea una reserva del empleado en el slot, con un id nuevo, si el
    /// empleado no tiene ya una activa en ese slot y la reserva pasa la
    /// validacion del dominio contra el reloj.
    fn crear_reserva(&mut self, empleado_id: String, slot: Slot, descripcion: String) -> (r: Result<
        Reserva,
        String,
    >)
        requires
            crate::tiempo::instante_acotado(slot.inicio as int),
        ensures
            r matches Ok(res) ==> {
                &&& !ocupado(empleado_id@, slot, old(self).reservas())
                &&& slot.es_horario_laboral_spec()
                &&& !es_blanca(descripcion@)
                &&& res.empleado_id == empleado_id
                &&& res.slot == slot
                &&& res.descripcion == descripcion
                &&& res.estado == crate::reserva::EstadoReserva::Pendiente
                &&& res.id@.len() == 36
                &&& final(self).reservas() == upsert_reserva(old(self).reservas(), res)
            },
            r is Err ==> final(self).reservas() == old(self).reservas(),
            ocupado(empleado_id@, slot, old(self).reservas()) ==> r is Err,
            !slot.es_horario_laboral_spec() ==> r is Err,
            es_blanca(descripcion@) ==> r is Err,
            slot.inicio <= 0 && !ocupado(empleado_id@, slot, old(self).reservas()) ==> r is Err,
    ;

    /// La primera reserva con ese id, si la hay.
    fn obtener_reserva(&self, id: &str) -> (r: Result<Option<Reserva>, String>)
        ensures
            r matches Ok(o),
            r matches Ok(o) ==> {
                let k = indice_reserva(self.reservas(), id@);
                if k < 0 {
                    o is None
                } else {
                    o == Some(self.reservas()[k])
                }
            },
    ;

    /// Todas las reservas.
    fn listar_reservas(&self) -> (r: Result<Vec<Reserva>, String>)
        ensures
            r matches Ok(v) && v@ == self.reservas(),
    ;

    /// Las reservas activas del empleado.
    fn listar_reservas_empleado(&self, empleado_id: &str) -> (r: Result<Vec<Reserva>, String>)
        ensures
            r matches Ok(v) && v@ == activas_de_empleado(self.reservas(), empleado_id@),
    ;

    /// Confirma la reserva con ese id y la devuelve; si no la hay, lo
    /// dice sin tocar nada.
    fn confirmar_reserva(&mut self, id: &str) -> (r: Result<Reserva, String>)
        ensures
            indice_reserva(old(self).reservas(), id@) < 0 ==> r is Err && final(self).reservas()
                == old(self).reservas(),
            indice_reserva(old(self).reservas(), id@) >= 0 ==> {
                let k = indice_reserva(old(self).reservas(), id@);
                let cambiada = Reserva {
                    estado: crate::reserva::EstadoReserva::Confirmada,
                    ..old(self).reservas()[k]
                };
                r == Ok::<Reserva, String>(cambiada) && final(self).reservas() == old(self).reservas().update(k, cambiada)
            },
    ;

    /// Cancela la reserva con ese id y la devuelve; si no la hay, lo
    /// dice sin tocar nada.
    fn cancelar_reserva(&mut self, id: &str) -> (r: Result<Reserva, String>)
        ensures
            indice_reserva(old(self).reservas(), id@) < 0 ==> r is Err && final(self).reservas()
                == old(self).reservas(),
            indice_reserva(old(self).reservas(), id@) >= 0 ==> {
                let k = indice_reserva(old(self).reservas(), id@);
                let cambiada = Reserva {
                    estado: crate::reserva::EstadoReserva::Cancelada,
                    ..old(self).reservas()[k]
                };
                r == Ok::<Reserva, String>(cambiada) && final(self).reservas() == old(self).reservas().update(k, cambiada)
            },
    ;
}

/// Puerto de entrada: casos de uso sobre salas.
pub trait SalaService: Sized {
    /// Las salas que el servicio conoce.
    spec fn salas(&self) -> Seq<Sala>;

    /// Da de alta una sala activa con un id nuevo, si pasa la
    /// validacion del dominio.
    fn crear_sala(&mut self, nombre: String, capacidad: u32) -> (r: Result<Sala, String>)
        ensures
            r is Ok <==> !es_blanca(nombre@) && capacidad > 0,
            r matches Ok(s) ==> s.nombre == nombre && s.capacidad == capacidad && s.activa
                && s.id@.len() == 36 && final(self).salas() == upsert_sala(old(self).salas(), s),
            r is Err ==> final(self).salas() == old(self).salas(),
    ;

    /// Todas las salas.
    fn listar_salas(&self) -> (r: Result<Vec<Sala>, String>)
        ensures
            r matches Ok(v) && v@ == self.salas(),
    ;

    /// La primera sala con ese id, si la hay.
    fn obtener_sala(&self, id: &str) -> (r: Result<Option<Sala>, String>)
        ensures
            r matches Ok(o),
            r matches Ok(o) ==> {
                let k = indice_sala(self.salas(), id@);
                if k < 0 {
                    o is None
                } else {
                    o == Some(self.salas()[k])
                }
            },
    ;

    /// Enciende `activa` en la sala con ese id; si no la hay, lo dice
    /// sin tocar nada.
    fn activar_sala(&mut self, id: &str) -> (r: Result<(), String>)
        ensures
            indice_sala(old(self).salas(), id@) < 0 ==> r is Err && final(self).salas() == old(self).salas(),
            indice_sala(old(self).salas(), id@) >= 0 ==> {
                let k = indice_sala(old(self).salas(), id@);
                r is Ok && final(self).salas() == old(self).salas().update(
                    k,
                    Sala { activa: true, ..old(self).salas()[k] },
                )
            },
    ;

    /// Apaga `activa` en la sala con ese id; si no la hay, lo dice sin
    /// tocar nada.
    fn desactivar_sala(&mut self, id: &str) -> (r: Result<(), String>)
        ensures
            indice_sala(old(self).salas(), id@) < 0 ==> r is Err && final(self).salas() == old(self).salas(),
            indice_sala(old(self).salas(), id@) >= 0 ==> {
                let k = indice_sala(old(self).salas(), id@);
                r is Ok && final(self).salas() == old(self).salas().update(
                    k,
                    Sala { activa: false, ..old(self).salas()[k] },
                )
            },
    ;
}

} // verus!
