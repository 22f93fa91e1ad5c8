//! Adaptadores de salida: almacenes en memoria, uno por entidad. Cada
//! uno guarda sus entidades en una lista en orden de primera llegada y
//! cumple el contrato de su puerto.

use vstd::prelude::*;
use vstd::string::StringExecFns;
use crate::empleado::Empleado;
use crate::puertos::{
    indice_empleado, indice_reserva, indice_sala, lemma_indice_empleado, lemma_indice_empleado_en,
    lemma_indice_reserva, lemma_indice_reserva_en, lemma_indice_sala, lemma_indice_sala_en,
    EmpleadoRepository, ReservaRepository, SalaRepository,
};
use crate::reserva::Reserva;
use crate::sala::Sala;
use crate::slot::Slot;
use crate::texto::textos_iguales;

verus! {

/// Almacen de reservas en memoria.
pub struct InMemoryReservaRepository {
    almacen: Vec<Reserva>,
}

/// Almacen de empleados en memoria.
pub struct InMemoryEmpleadoRepository {
    almacen: Vec<Empleado>,
}

/// Almacen de salas en memoria.
pub struct InMemorySalaRepository {
    almacen: Vec<Sala>,
}

/// Busca por id en una lista de empleados.
fn busca_empleado(empleados: &Vec<Empleado>, id: &str) -> (r: Option<usize>)
    ensures
        r is Some <==> indice_empleado(empleados@, id@) >= 0,
        r matches Some(k) ==> k < empleados@.len() && k == indice_empleado(empleados@, id@),
{
    let mut i: usize = 0;
    while i < empleados.len()
        invariant
            i <= empleados@.len(),
            forall|j: int| 0 <= j < i ==> (#[trigger] empleados@[j]).id@ != id@,
        decreases empleados@.len() - i,
    {
        if textos_iguales(empleados[i].id.as_str(), id) {
            proof {
                lemma_indice_empleado_en(empleados@, id@, i as int);
            }
            return Some(i);
        }
        i = i + 1;
    }
    proof {
        lemma_indice_empleado(empleados@, id@);
    }
    None
}

/// Busca por id en una lista de reservas.
fn busca_reserva(reservas: &Vec<Reserva>, id: &str) -> (r: Option<usize>)
    ensures
        r is Some <==> indice_reserva(reservas@, id@) >= 0,
        r matches Some(k) ==> k < reservas@.len() && k == indice_reserva(reservas@, id@),
{
    let mut i: usize = 0;
    while i < reservas.len()
        invariant
            i <= reservas@.len(),
            forall|j: int| 0 <= j < i ==> (#[trigger] reservas@[j]).id@ != id@,
        decreases reservas@.len() - i,
    {
        if textos_iguales(reservas[i].id.as_str(), id) {
            proof {
                lemma_indice_reserva_en(reservas@, id@, i as int);
            }
            return Some(i);
        }
        i = i + 1;
    }
    proof {
        lemma_indice_reserva(reservas@, id@);
    }
    None
}

/// Busca por id en una lista de salas.
fn busca_sala(salas: &Vec<Sala>, id: &str) -> (r: Option<usize>)
    ensures
        r is Some <==> indice_sala(salas@, id@) >= 0,
        r matches Some(k) ==> k < salas@.len() && k == indice_sala(salas@, id@),
{
    let mut i: usize = 0;
    while i < salas.len()
        invariant
            i <= salas@.len(),
            forall|j: int| 0 <= j < i ==> (#[trigger] salas@[j]).id@ != id@,
        decreases salas@.len() - i,
    {
        if textos_iguales(salas[i].id.as_str(), id) {
            proof {
                lemma_indice_sala_en(salas@, id@, i as int);
            }
            return Some(i);
        }
        i = i + 1;
    }
    proof {
        lemma_indice_sala(salas@, id@);
    }
    None
}

/// Copia una lista de empleados elemento a elemento.
fn clona_empleados(v: &Vec<Empleado>) -> (r: Vec<Empleado>)
    ensures
        r@ == v@,
{
    let mut r: Vec<Empleado> = Vec::new();
    let mut i: usize = 0;
    while i < v.len()
        invariant
            i <= v@.len(),
            r@ =~= v@.take(i as int),
        decreases v@.len() - i,
    {
        r.push(v[i].clone());
        i = i + 1;
        assert(r@ =~= v@.take(i as int));
    }
    proof {
        assert(v@.take(v@.len() as int) =~= v@);
    }
    r
}

/// Copia una lista de reservas elemento a elemento.
fn clona_reservas(v: &Vec<Reserva>) -> (r: Vec<Reserva>)
    ensures
        r@ == v@,
{
    let mut r: Vec<Reserva> = Vec::new();
    let mut i: usize = 0;
    while i < v.len()
        invariant
            i <= v@.len(),
            r@ =~= v@.take(i as int),
        decreases v@.len() - i,
    {
        r.push(v[i].clone());
        i = i + 1;
        assert(r@ =~= v@.take(i as int));
    }
    proof {
        assert(v@.take(v@.len() as int) =~= v@);
    }
    r
}

/// Copia una lista de salas elemento a elemento.
fn clona_salas(v: &Vec<Sala>) -> (r: Vec<Sala>)
    ensures
        r@ == v@,
{
    let mut r: Vec<Sala> = Vec::new();
    let mut i: usize = 0;
    while i < v.len()
        invariant
            i <= v@.len(),
            r@ =~= v@.take(i as int),
        decreases v@.len() - i,
    {
        r.push(v[i].clone());
        i = i + 1;
        assert(r@ =~= v@.take(i as int));
    }
    proof {
        assert(v@.take(v@.len() as int) =~= v@);
    }
    r
}

impl InMemoryReservaRepository {
    /// Un almacen vacio.
    pub fn new() -> (r: InMemoryReservaRepository)
        ensures
            r.reservas() == Seq::<Reserva>::empty(),
    {
        let r = InMemoryReservaRepository { almacen: Vec::new() };
        proof {
            assert(r.almacen@ =~= Seq::<Reserva>::empty());
        }
        r
    }
}

impl ReservaRepository for InMemoryReservaRepository {
    closed spec fn reservas(&self) -> Seq<Reserva> {
        self.almacen@
    }

    fn guardar(&mut self, reserva: &Reserva) -> (r: Result<(), String>) {
        match busca_reserva(&self.almacen, reserva.id.as_str()) {
            Some(k) => self.almacen.set(k, reserva.clone()),
            None => self.almacen.push(reserva.clone()),
        }
        Ok(())
    }

    fn obtener(&self, id: &str) -> (r: Result<Option<Reserva>, String>) {
        match busca_reserva(&self.almacen, id) {
            Some(k) => Ok(Some(self.almacen[k].clone())),
            None => Ok(None),
        }
    }

    fn listar(&self) -> (r: Result<Vec<Reserva>, String>) {
        Ok(clona_reservas(&self.almacen))
    }

    fn listar_por_empleado(&self, empleado_id: &str) -> (r: Result<Vec<Reserva>, String>) {
        let mut v: Vec<Reserva> = Vec::new();
        let mut i: usize = 0;
        while i < self.almacen.len()
            invariant
                i <= self.almacen@.len(),
                v@ =~= crate::disponibilidad::activas_de_empleado(
                    self.almacen@.take(i as int),
                    empleado_id@,
                ),
            decreases self.almacen@.len() - i,
        {
            proof {
                assert(self.almacen@.take(i as int + 1).drop_last() =~= self.almacen@.take(
                    i as int,
                ));
                assert(self.almacen@.take(i as int + 1).last() == self.almacen@[i as int]);
            }
            let actual = &self.almacen[i];
            if textos_iguales(actual.empleado_id.as_str(), empleado_id) && actual.esta_activa() {
                v.push(actual.clone());
            }
            i = i + 1;
            proof {
                assert(v@ =~= crate::disponibilidad::activas_de_empleado(
                    self.almacen@.take(i as int),
                    empleado_id@,
                ));
            }
        }
        proof {
            assert(self.almacen@.take(self.almacen@.len() as int) =~= self.almacen@);
        }
        Ok(v)
    }

    fn listar_por_slot(&self, slot: &Slot) -> (r: Result<Vec<Reserva>, String>) {
        let mut v: Vec<Reserva> = Vec::new();
        let mut i: usize = 0;
        while i < self.almacen.len()
            invariant
                i <= self.almacen@.len(),
                v@ =~= crate::puertos::activas_en_slot(self.almacen@.take(i as int), *slot),
            decreases self.almacen@.len() - i,
        {
            proof {
                assert(self.almacen@.take(i as int + 1).drop_last() =~= self.almacen@.take(
                    i as int,
                ));
                assert(self.almacen@.take(i as int + 1).last() == self.almacen@[i as int]);
            }
            let actual = &self.almacen[i];
            if actual.slot == *slot && actual.esta_activa() {
                v.push(actual.clone());
            }
            i = i + 1;
            proof {
                assert(v@ =~= crate::puertos::activas_en_slot(
                    self.almacen@.take(i as int),
                    *slot,
                ));
            }
        }
        proof {
            assert(self.almacen@.take(self.almacen@.len() as int) =~= self.almacen@);
        }
        Ok(v)
    }

    fn actualizar(&mut self, reserva: &Reserva) -> (r: Result<(), String>) {
        match busca_reserva(&self.almacen, reserva.id.as_str()) {
            Some(k) => {
                self.almacen.set(k, reserva.clone());
                Ok(())
            },
            None => Err(String::from_str("Reserva no encontrada")),
        }
    }

    fn existe(&self, id: &str) -> (r: Result<bool, String>) {
        Ok(busca_reserva(&self.almacen, id).is_some())
    }

    fn existe_para_empleado_en_slot(&self, empleado_id: &str, slot: &Slot) -> (r: Result<
        bool,
        String,
    >) {
        Ok(!crate::disponibilidad::DisponibilidadService::empleado_disponible_en_slot(
            empleado_id,
            slot,
            self.almacen.as_slice(),
        ))
    }
}

impl InMemoryEmpleadoRepository {
    /// Un almacen vacio.
    pub fn new() -> (r: InMemoryEmpleadoRepository)
        ensures
            r.empleados() == Seq::<Empleado>::empty(),
    {
        let r = InMemoryEmpleadoRepository { almacen: Vec::new() };
        proof {
            assert(r.almacen@ =~= Seq::<Empleado>::empty());
        }
        r
    }
}

impl EmpleadoRepository for InMemoryEmpleadoRepository {
    closed spec fn empleados(&self) -> Seq<Empleado> {
        self.almacen@
    }

    fn guardar(&mut self, empleado: &Empleado) -> (r: Result<(), String>) {
        match busca_empleado(&self.almacen, empleado.id.as_str()) {
            Some(k) => self.almacen.set(k, empleado.clone()),
            None => self.almacen.push(empleado.clone()),
        }
        Ok(())
    }

    fn obtener(&self, id: &str) -> (r: Result<Option<Empleado>, String>) {
        match busca_empleado(&self.almacen, id) {
            Some(k) => Ok(Some(self.almacen[k].clone())),
            None => Ok(None),
        }
    }

    fn listar(&self) -> (r: Result<Vec<Empleado>, String>) {
        Ok(clona_empleados(&self.almacen))
    }

    fn actualizar(&mut self, empleado: &Empleado) -> (r: Result<(), String>) {
        match busca_empleado(&self.almacen, empleado.id.as_str()) {
            Some(k) => {
                self.almacen.set(k, empleado.clone());
                Ok(())
            },
            None => Err(String::from_str("Empleado no encontrado")),
        }
    }

    fn existe(&self, id: &str) -> (r: Result<bool, String>) {
        Ok(busca_empleado(&self.almacen, id).is_some())
    }
}

impl InMemorySalaRepository {
    /// Un almacen vacio.
    pub fn new() -> (r: InMemorySalaRepository)
        ensures
            r.salas() == Seq::<Sala>::empty(),
    {
        let r = InMemorySalaRepository { almacen: Vec::new() };
        proof {
            assert(r.almacen@ =~= Seq::<Sala>::empty());
        }
        r
    }
}

impl Default for InMemorySalaRepository {
    fn default() -> (r: Self)
        ensures
            r.salas() == Seq::<Sala>::empty(),
    {
        InMemorySalaRepository::new()
    }
}

impl SalaRepository for InMemorySalaRepository {
    closed spec fn salas(&self) -> Seq<Sala> {
        self.almacen@
    }

    fn guardar(&mut self, sala: &Sala) -> (r: Result<(), String>) {
        match busca_sala(&self.almacen, sala.id.as_str()) {
            Some(k) => self.almacen.set(k, sala.clone()),
            None => self.almacen.push(sala.clone()),
        }
        Ok(())
    }

    fn obtener(&self, id: &str) -> (r: Result<Option<Sala>, String>) {
        match busca_sala(&self.almacen, id) {
            Some(k) => Ok(Some(self.almacen[k].clone())),
            None => Ok(None),
        }
    }

    fn listar(&self) -> (r: Result<Vec<Sala>, String>) {
        Ok(clona_salas(&self.almacen))
    }

    fn actualizar(&mut self, sala: &Sala) -> (r: Result<(), String>) {
        match busca_sala(&self.almacen, sala.id.as_str()) {
            Some(k) => {
                self.almacen.set(k, sala.clone());
                Ok(())
            },
            None => Err(String::from_str("Sala no encontrada")),
        }
    }
}

} // verus!
