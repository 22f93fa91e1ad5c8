//! Servicio de dominio: disponibilidad de empleados sobre slots y
//! reservas. Coordina las tres entidades sin guardar estado propio.

use std::collections::HashMap;
use vstd::prelude::*;
use vstd::multiset::Multiset;
use crate::empleado::Empleado;
use crate::reserva::Reserva;
use crate::slot::Slot;
use crate::texto::{
    agrega_alineado_izq, agrega_centrado, agrega_digitos, agrega_guiones, alineado_izq, centrado,
    digitos, repetido, textos_iguales,
};
use crate::tiempo::{hora_de, hora_de_exec};
use vstd::string::StringExecFns;

verus! {

/// Servicio sin estado: todas sus operaciones son funciones de los
/// datos que se le pasan.
pub struct DisponibilidadService;

/// Disponibilidad de un empleado en un slot, con la reserva que la
/// ocupa si la hay.
#[derive(Debug, PartialEq)]
pub struct DisponibilidadSlot {
    pub empleado_id: String,
    pub empleado_nombre: String,
    pub slot: Slot,
    pub disponible: bool,
    pub reserva_id: Option<String>,
    pub descripcion_reserva: Option<String>,
}

/// Tabla de disponibilidad de varios empleados sobre varios slots.
#[derive(Debug)]
pub struct TablaDisponibilidad {
    pub slots: Vec<Slot>,
    pub empleados: Vec<Empleado>,
    pub disponibilidad: Vec<DisponibilidadSlot>,
}

/// Una reserva cuenta contra un empleado y un slot si es suya, es de
/// ese slot y sigue activa.
pub open spec fn coincide(r: Reserva, empleado_id: Seq<char>, slot: Slot) -> bool {
    r.empleado_id@ == empleado_id && r.slot == slot && r.esta_activa_spec()
}

/// Un empleado esta ocupado en un slot si alguna reserva de la lista
/// cuenta contra el.
pub open spec fn ocupado(empleado_id: Seq<char>, slot: Slot, reservas: Seq<Reserva>) -> bool {
    exists|i: int| 0 <= i < reservas.len() && coincide(#[trigger] reservas[i], empleado_id, slot)
}

/// Indice de la primera reserva que cuenta contra el empleado y el
/// slot, o `-1` si ninguna.
pub open spec fn indice_primera(reservas: Seq<Reserva>, empleado_id: Seq<char>, slot: Slot) -> int
    decreases reservas.len(),
{
    if reservas.len() == 0 {
        -1
    } else if coincide(reservas[0], empleado_id, slot) {
        0
    } else {
        let resto = indice_primera(reservas.drop_first(), empleado_id, slot);
        if resto < 0 {
            -1
        } else {
            resto + 1
        }
    }
}

/// El indice de la primera reserva que cuenta es `-1` exactamente
/// cuando el empleado esta libre; si no, apunta a la primera que cuenta.
pub proof fn lemma_indice_primera(reservas: Seq<Reserva>, empleado_id: Seq<char>, slot: Slot)
    ensures
        -1 <= indice_primera(reservas, empleado_id, slot) < reservas.len(),
        indice_primera(reservas, empleado_id, slot) == -1 <==> !ocupado(
            empleado_id,
            slot,
            reservas,
        ),
        indice_primera(reservas, empleado_id, slot) >= 0 ==> {
            let k = indice_primera(reservas, empleado_id, slot);
            &&& coincide(reservas[k], empleado_id, slot)
            &&& forall|j: int| 0 <= j < k ==> !coincide(#[trigger] reservas[j], empleado_id, slot)
        },
    decreases reservas.len(),
{
    if reservas.len() == 0 {
    } else if coincide(reservas[0], empleado_id, slot) {
    } else {
        let cola = reservas.drop_first();
        lemma_indice_primera(cola, empleado_id, slot);
        assert(forall|i: int| 0 <= i < cola.len() ==> #[trigger] cola[i] == reservas[i + 1]);
        let resto = indice_primera(cola, empleado_id, slot);
        if resto == -1 {
            assert forall|i: int| 0 <= i < reservas.len() implies !coincide(
                #[trigger] reservas[i],
                empleado_id,
                slot,
            ) by {
                if i > 0 {
                    assert(reservas[i] == cola[i - 1]);
                }
            }
        } else {
            assert(reservas[resto + 1] == cola[resto]);
            assert forall|j: int| 0 <= j < resto + 1 implies !coincide(
                #[trigger] reservas[j],
                empleado_id,
                slot,
            ) by {
                if j > 0 {
                    assert(reservas[j] == cola[j - 1]);
                }
            }
            assert(ocupado(empleado_id, slot, reservas));
        }
    }
}

/// Si nada antes de `i` cuenta y `reservas[i]` cuenta, `i` es el primero.
pub proof fn lemma_indice_primera_en(
    reservas: Seq<Reserva>,
    empleado_id: Seq<char>,
    slot: Slot,
    i: int,
)
    requires
        0 <= i < reservas.len(),
        coincide(reservas[i], empleado_id, slot),
        forall|j: int| 0 <= j < i ==> !coincide(#[trigger] reservas[j], empleado_id, slot),
    ensures
        indice_primera(reservas, empleado_id, slot) == i,
{
    lemma_indice_primera(reservas, empleado_id, slot);
    let k = indice_primera(reservas, empleado_id, slot);
    if k == -1 {
        assert(ocupado(empleado_id, slot, reservas));
        assert(false);
    } else if k < i {
        assert(!coincide(reservas[k], empleado_id, slot));
        assert(false);
    } else if k > i {
        assert(!coincide(reservas[i], empleado_id, slot));
        assert(false);
    }
}

/// Busca la primera reserva que cuenta contra el empleado y el slot.
pub(crate) fn busca_primera(reservas: &[Reserva], empleado_id: &str, slot: &Slot) -> (r: Option<
    usize,
>)
    ensures
        r is Some <==> ocupado(empleado_id@, *slot, reservas@),
        r matches Some(k) ==> k < reservas@.len() && k == indice_primera(
            reservas@,
            empleado_id@,
            *slot,
        ),
        r is None ==> indice_primera(reservas@, empleado_id@, *slot) == -1,
{
    let mut i: usize = 0;
    while i < reservas.len()
        invariant
            i <= reservas@.len(),
            forall|j: int| 0 <= j < i ==> !coincide(#[trigger] reservas@[j], empleado_id@, *slot),
        decreases reservas@.len() - i,
    {
        let actual = &reservas[i];
        if textos_iguales(actual.empleado_id.as_str(), empleado_id) && actual.slot == *slot
            && actual.esta_activa() {
            proof {
                lemma_indice_primera_en(reservas@, empleado_id@, *slot, i as int);
            }
            return Some(i);
        }
        i = i + 1;
    }
    proof {
        lemma_indice_primera(reservas@, empleado_id@, *slot);
    }
    None
}

/// Las reservas de la lista que son del empleado y siguen activas, en
/// el orden de entrada.
pub open spec fn activas_de_empleado(reservas: Seq<Reserva>, empleado_id: Seq<char>) -> Seq<
    Reserva,
>
    decreases reservas.len(),
{
    if reservas.len() == 0 {
        Seq::empty()
    } else {
        activas_de_empleado(reservas.drop_last(), empleado_id) + if reservas.last().empleado_id@
            == empleado_id && reservas.last().esta_activa_spec() {
            seq![reservas.last()]
        } else {
            Seq::empty()
        }
    }
}

/// Los empleados activos de la lista, en su orden.
pub open spec fn activos(empleados: Seq<Empleado>) -> Seq<Empleado>
    decreases empleados.len(),
{
    if empleados.len() == 0 {
        Seq::empty()
    } else {
        activos(empleados.drop_last()) + if empleados.last().activo {
            seq![empleados.last()]
        } else {
            Seq::empty()
        }
    }
}

/// La entrada de la tabla para un empleado y un slot: libre, o tomada
/// por la primera reserva activa que coincide.
pub open spec fn celda(e: Empleado, slot: Slot, reservas: Seq<Reserva>) -> DisponibilidadSlot {
    let k = indice_primera(reservas, e.id@, slot);
    if k < 0 {
        DisponibilidadSlot {
            empleado_id: e.id,
            empleado_nombre: e.nombre,
            slot,
            disponible: true,
            reserva_id: None,
            descripcion_reserva: None,
        }
    } else {
        DisponibilidadSlot {
            empleado_id: e.id,
            empleado_nombre: e.nombre,
            slot,
            disponible: false,
            reserva_id: Some(reservas[k].id),
            descripcion_reserva: Some(reservas[k].descripcion),
        }
    }
}

/// La fila de la tabla de un empleado: una celda por slot, en orden.
pub open spec fn fila(e: Empleado, slots: Seq<Slot>, reservas: Seq<Reserva>) -> Seq<
    DisponibilidadSlot,
> {
    Seq::new(slots.len(), |j: int| celda(e, slots[j], reservas))
}

/// La tabla entera: las filas de los empleados activos, en su orden;
/// los inactivos no aportan fila.
pub open spec fn tabla(
    empleados: Seq<Empleado>,
    slots: Seq<Slot>,
    reservas: Seq<Reserva>,
) -> Seq<DisponibilidadSlot>
    decreases empleados.len(),
{
    if empleados.len() == 0 {
        Seq::empty()
    } else {
        tabla(empleados.drop_last(), slots, reservas) + if empleados.last().activo {
            fila(empleados.last(), slots, reservas)
        } else {
            Seq::empty()
        }
    }
}

/// La tabla tiene exactamente una entrada por cada par de empleado
/// activo y slot.
pub proof fn lemma_tabla_tamano(empleados: Seq<Empleado>, slots: Seq<Slot>, reservas: Seq<Reserva>)
    ensures
        tabla(empleados, slots, reservas).len() == activos(empleados).len() * slots.len(),
    decreases empleados.len(),
{
    if empleados.len() == 0 {
    } else {
        lemma_tabla_tamano(empleados.drop_last(), slots, reservas);
        let a = activos(empleados.drop_last()).len() as int;
        let m = slots.len() as int;
        if empleados.last().activo {
            assert((a + 1) * m == a * m + m) by (nonlinear_arith);
        }
    }
}

/// Los empleados inactivos no dejan rastro: la tabla es la misma que la
/// de la lista ya filtrada a los activos.
pub proof fn lemma_tabla_solo_activos(
    empleados: Seq<Empleado>,
    slots: Seq<Slot>,
    reservas: Seq<Reserva>,
)
    ensures
        tabla(empleados, slots, reservas) == tabla(activos(empleados), slots, reservas),
    decreases empleados.len(),
{
    if empleados.len() == 0 {
    } else {
        let frente = empleados.drop_last();
        lemma_tabla_solo_activos(frente, slots, reservas);
        if empleados.last().activo {
            assert(activos(empleados).drop_last() =~= activos(frente));
            assert(activos(empleados).last() == empleados.last());
            assert(activos(empleados).len() > 0);
        } else {
            assert(activos(empleados) =~= activos(frente));
        }
    }
}

/// Los slots de la lista en los que el empleado esta libre, en orden.
pub open spec fn slots_libres(
    empleado_id: Seq<char>,
    slots: Seq<Slot>,
    reservas: Seq<Reserva>,
) -> Seq<Slot>
    decreases slots.len(),
{
    if slots.len() == 0 {
        Seq::empty()
    } else {
        slots_libres(empleado_id, slots.drop_last(), reservas) + if !ocupado(
            empleado_id,
            slots.last(),
            reservas,
        ) {
            seq![slots.last()]
        } else {
            Seq::empty()
        }
    }
}

/// Todos los empleados activos de la lista estan libres en el slot.
pub open spec fn todos_disponibles(
    empleados: Seq<Empleado>,
    slot: Slot,
    reservas: Seq<Reserva>,
) -> bool {
    forall|i: int|
        0 <= i < empleados.len() ==> ((#[trigger] empleados[i]).activo ==> !ocupado(
            empleados[i].id@,
            slot,
            reservas,
        ))
}

/// Los slots de la lista en los que todos los activos estan libres.
pub open spec fn slots_para_todos(
    empleados: Seq<Empleado>,
    slots: Seq<Slot>,
    reservas: Seq<Reserva>,
) -> Seq<Slot>
    decreases slots.len(),
{
    if slots.len() == 0 {
        Seq::empty()
    } else {
        slots_para_todos(empleados, slots.drop_last(), reservas) + if todos_disponibles(
            empleados,
            slots.last(),
            reservas,
        ) {
            seq![slots.last()]
        } else {
            Seq::empty()
        }
    }
}

impl DisponibilidadService {
    /// Un empleado esta disponible en un slot si ninguna reserva activa
    /// suya cae en ese slot.
    pub fn empleado_disponible_en_slot(empleado_id: &str, slot: &Slot, reservas: &[Reserva]) -> (b:
        bool)
        ensures
            b == !ocupado(empleado_id@, *slot, reservas@),
    {
        busca_primera(reservas, empleado_id, slot).is_none()
    }

    /// Las reservas activas de un empleado, en el orden de entrada.
    pub fn reservas_de_empleado<'a>(empleado_id: &str, reservas: &'a [Reserva]) -> (r: Vec<
        &'a Reserva,
    >)
        ensures
            r@.map_values(|x: &Reserva| *x) == activas_de_empleado(reservas@, empleado_id@),
    {
        let mut r: Vec<&Reserva> = Vec::new();
        let mut i: usize = 0;
        while i < reservas.len()
            invariant
                i <= reservas@.len(),
                r@.map_values(|x: &Reserva| *x) =~= activas_de_empleado(
                    reservas@.take(i as int),
                    empleado_id@,
                ),
            decreases reservas@.len() - i,
        {
            proof {
                assert(reservas@.take(i as int + 1).drop_last() =~= reservas@.take(i as int));
                assert(reservas@.take(i as int + 1).last() == reservas@[i as int]);
            }
            let actual = &reservas[i];
            if textos_iguales(actual.empleado_id.as_str(), empleado_id) && actual.esta_activa() {
                r.push(actual);
            }
            i = i + 1;
            proof {
                assert(r@.map_values(|x: &Reserva| *x) =~= activas_de_empleado(
                    reservas@.take(i as int),
                    empleado_id@,
                ));
            }
        }
        proof {
            assert(reservas@.take(reservas@.len() as int) =~= reservas@);
        }
        r
    }

    /// Genera la tabla de disponibilidad: para cada empleado activo y
    /// cada slot, si esta libre o que reserva lo ocupa.
    pub fn generar_tabla_disponibilidad(
        empleados: &[Empleado],
        slots: &[Slot],
        reservas: &[Reserva],
    ) -> (t: TablaDisponibilidad)
        ensures
            t.slots@ == slots@,
            t.empleados@ == activos(empleados@),
            t.disponibilidad@ == tabla(empleados@, slots@, reservas@),
    {
        let mut disponibilidad: Vec<DisponibilidadSlot> = Vec::new();
        let mut empleados_activos: Vec<Empleado> = Vec::new();
        let mut i: usize = 0;
        while i < empleados.len()
            invariant
                i <= empleados@.len(),
                empleados_activos@ =~= activos(empleados@.take(i as int)),
                disponibilidad@ =~= tabla(empleados@.take(i as int), slots@, reservas@),
            decreases empleados@.len() - i,
        {
            proof {
                assert(empleados@.take(i as int + 1).drop_last() =~= empleados@.take(i as int));
                assert(empleados@.take(i as int + 1).last() == empleados@[i as int]);
            }
            let empleado = &empleados[i];
            if empleado.activo {
                let mut j: usize = 0;
                while j < slots.len()
                    invariant
                        j <= slots@.len(),
                        i < empleados@.len(),
                        empleados@[i as int].activo,
                        disponibilidad@ =~= tabla(empleados@.take(i as int), slots@, reservas@)
                            + fila(empleados@[i as int], slots@.take(j as int), reservas@),
                    decreases slots@.len() - j,
                {
                    let empleado = &empleados[i];
                    let slot = slots[j];
                    let encontrada = busca_primera(reservas, empleado.id.as_str(), &slot);
                    let nueva = match encontrada {
                        None => DisponibilidadSlot {
                            empleado_id: empleado.id.clone(),
                            empleado_nombre: empleado.nombre.clone(),
                            slot,
                            disponible: true,
                            reserva_id: None,
                            descripcion_reserva: None,
                        },
                        Some(k) => DisponibilidadSlot {
                            empleado_id: empleado.id.clone(),
                            empleado_nombre: empleado.nombre.clone(),
                            slot,
                            disponible: false,
                            reserva_id: Some(reservas[k].id.clone()),
                            descripcion_reserva: Some(reservas[k].descripcion.clone()),
                        },
                    };
                    proof {
                        lemma_indice_primera(reservas@, empleados@[i as int].id@, slots@[j as int]);
                        assert(nueva == celda(empleados@[i as int], slots@[j as int], reservas@));
                        assert(fila(empleados@[i as int], slots@.take(j as int + 1), reservas@)
                            =~= fila(
                            empleados@[i as int],
                            slots@.take(j as int),
                            reservas@,
                        ).push(celda(empleados@[i as int], slots@[j as int], reservas@)));
                    }
                    disponibilidad.push(nueva);
                    j = j + 1;
                }
                empleados_activos.push(empleado.clone());
                proof {
                    assert(fila(empleados@[i as int], slots@.take(slots@.len() as int), reservas@)
                        =~= fila(empleados@[i as int], slots@, reservas@));
                    assert(activos(empleados@.take(i as int + 1)) =~= activos(
                        empleados@.take(i as int),
                    ) + seq![empleados@[i as int]]);
                }
            } else {
                proof {
                    assert(activos(empleados@.take(i as int + 1)) =~= activos(
                        empleados@.take(i as int),
                    ));
                    assert(tabla(empleados@.take(i as int + 1), slots@, reservas@) =~= tabla(
                        empleados@.take(i as int),
                        slots@,
                        reservas@,
                    ));
                }
            }
            i = i + 1;
        }
        proof {
            assert(empleados@.take(empleados@.len() as int) =~= empleados@);
        }
        TablaDisponibilidad {
            slots: vstd::slice::slice_to_vec(slots),
            empleados: empleados_activos,
            disponibilidad,
        }
    }

    /// Los slots de la lista en los que el empleado esta libre, en el
    /// orden de entrada.
    pub fn slots_libres_empleado(empleado_id: &str, slots: &[Slot], reservas: &[Reserva]) -> (r:
        Vec<Slot>)
        ensures
            r@ == slots_libres(empleado_id@, slots@, reservas@),
    {
        let mut r: Vec<Slot> = Vec::new();
        let mut i: usize = 0;
        while i < slots.len()
            invariant
                i <= slots@.len(),
                r@ =~= slots_libres(empleado_id@, slots@.take(i as int), reservas@),
            decreases slots@.len() - i,
        {
            proof {
                assert(slots@.take(i as int + 1).drop_last() =~= slots@.take(i as int));
                assert(slots@.take(i as int + 1).last() == slots@[i as int]);
            }
            let slot = slots[i];
            if DisponibilidadService::empleado_disponible_en_slot(empleado_id, &slot, reservas) {
                r.push(slot);
            }
            i = i + 1;
        }
        proof {
            assert(slots@.take(slots@.len() as int) =~= slots@);
        }
        r
    }

    /// Los slots de la lista en los que todos los empleados activos
    /// estan libres; sin empleados activos, todos lo estan.
    pub fn slots_con_todos_disponibles(
        empleados: &[Empleado],
        slots: &[Slot],
        reservas: &[Reserva],
    ) -> (r: Vec<Slot>)
        ensures
            r@ == slots_para_todos(empleados@, slots@, reservas@),
    {
        let mut r: Vec<Slot> = Vec::new();
        let mut i: usize = 0;
        while i < slots.len()
            invariant
                i <= slots@.len(),
                r@ =~= slots_para_todos(empleados@, slots@.take(i as int), reservas@),
            decreases slots@.len() - i,
        {
            proof {
                assert(slots@.take(i as int + 1).drop_last() =~= slots@.take(i as int));
                assert(slots@.take(i as int + 1).last() == slots@[i as int]);
            }
            let slot = slots[i];
            let mut libre = true;
            let mut k: usize = 0;
            while k < empleados.len()
                invariant
                    k <= empleados@.len(),
                    i < slots@.len(),
                    slot == slots@[i as int],
                    libre == forall|k2: int|
                        0 <= k2 < k ==> ((#[trigger] empleados@[k2]).activo ==> !ocupado(
                            empleados@[k2].id@,
                            slots@[i as int],
                            reservas@,
                        )),
                decreases empleados@.len() - k,
            {
                let empleado = &empleados[k];
                if empleado.activo && !DisponibilidadService::empleado_disponible_en_slot(
                    empleado.id.as_str(),
                    &slot,
                    reservas,
                ) {
                    libre = false;
                }
                k = k + 1;
            }
            if libre {
                r.push(slot);
            }
            i = i + 1;
        }
        proof {
            assert(slots@.take(slots@.len() as int) =~= slots@);
        }
        r
    }
}

/// Cuantas reservas activas de la lista caen en el slot.
pub open spec fn cuenta_en_slot(slot: Slot, reservas: Seq<Reserva>) -> int
    decreases reservas.len(),
{
    if reservas.len() == 0 {
        0
    } else {
        cuenta_en_slot(slot, reservas.drop_last()) + if reservas.last().slot == slot
            && reservas.last().esta_activa_spec() {
            1int
        } else {
            0int
        }
    }
}

/// Cuantas reservas activas de la lista son del empleado.
pub open spec fn cuenta_de_empleado(empleado_id: Seq<char>, reservas: Seq<Reserva>) -> int
    decreases reservas.len(),
{
    if reservas.len() == 0 {
        0
    } else {
        cuenta_de_empleado(empleado_id, reservas.drop_last()) + if reservas.last().empleado_id@
            == empleado_id && reservas.last().esta_activa_spec() {
            1int
        } else {
            0int
        }
    }
}

/// Un par `(nombre, cuenta de reservas activas)` por empleado activo,
/// en el orden de entrada.
pub open spec fn pares_ocupacion(empleados: Seq<Empleado>, reservas: Seq<Reserva>) -> Seq<
    (String, usize),
>
    decreases empleados.len(),
{
    if empleados.len() == 0 {
        Seq::empty()
    } else {
        pares_ocupacion(empleados.drop_last(), reservas) + if empleados.last().activo {
            seq![
                (
                    empleados.last().nombre,
                    cuenta_de_empleado(empleados.last().id@, reservas) as usize,
                ),
            ]
        } else {
            Seq::empty()
        }
    }
}

/// Coloca el par tras todos los de cuenta mayor o igual: el orden de
/// entrada se conserva entre empatados.
pub open spec fn inserta_ordenado(p: (String, usize), s: Seq<(String, usize)>) -> Seq<
    (String, usize),
>
    decreases s.len(),
{
    if s.len() == 0 {
        seq![p]
    } else if s[0].1 >= p.1 {
        seq![s[0]] + inserta_ordenado(p, s.drop_first())
    } else {
        seq![p] + s
    }
}

/// Orden estable de mayor a menor cuenta, insertando cada par tras los
/// ya colocados de cuenta mayor o igual.
pub open spec fn ordena_desc(s: Seq<(String, usize)>) -> Seq<(String, usize)>
    decreases s.len(),
{
    if s.len() == 0 {
        Seq::empty()
    } else {
        inserta_ordenado(s.last(), ordena_desc(s.drop_last()))
    }
}

/// Las cuentas no crecen a lo largo de la secuencia.
pub open spec fn ordenada_desc(s: Seq<(String, usize)>) -> bool {
    forall|i: int, j: int| 0 <= i < j < s.len() ==> (#[trigger] s[i]).1 >= (#[trigger] s[j]).1
}

/// Posicion en la que `inserta_ordenado` abre hueco: tras todos los de
/// cuenta mayor o igual.
pub open spec fn pos_inserta(p: (String, usize), s: Seq<(String, usize)>) -> int
    decreases s.len(),
{
    if s.len() == 0 {
        0
    } else if s[0].1 >= p.1 {
        1 + pos_inserta(p, s.drop_first())
    } else {
        0
    }
}

/// Insertar es abrir hueco en `pos_inserta`: todo lo anterior tiene
/// cuenta mayor o igual y lo que sigue, si existe, cuenta menor.
pub proof fn lemma_inserta_caracteriza(p: (String, usize), s: Seq<(String, usize)>)
    ensures
        0 <= pos_inserta(p, s) <= s.len(),
        forall|i: int| 0 <= i < pos_inserta(p, s) ==> (#[trigger] s[i]).1 >= p.1,
        pos_inserta(p, s) < s.len() ==> s[pos_inserta(p, s)].1 < p.1,
        inserta_ordenado(p, s) == s.insert(pos_inserta(p, s), p),
    decreases s.len(),
{
    broadcast use vstd::seq_lib::group_seq_properties;

    if s.len() == 0 {
        assert(inserta_ordenado(p, s) =~= s.insert(0, p));
    } else if s[0].1 >= p.1 {
        let cola = s.drop_first();
        lemma_inserta_caracteriza(p, cola);
        let j = pos_inserta(p, cola);
        assert(forall|i: int| 0 <= i < cola.len() ==> #[trigger] cola[i] == s[i + 1]);
        assert forall|i: int| 0 <= i < j + 1 implies (#[trigger] s[i]).1 >= p.1 by {
            if i > 0 {
                assert(s[i] == cola[i - 1]);
            }
        }
        assert(inserta_ordenado(p, s) == seq![s[0]] + cola.insert(j, p));
        assert(seq![s[0]] + cola.insert(j, p) =~= s.insert(j + 1, p));
    } else {
        assert(inserta_ordenado(p, s) =~= s.insert(0, p));
    }
}

/// Insertar conserva los pares y, sobre una secuencia ya ordenada, el
/// orden.
pub proof fn lemma_inserta_ordenado(p: (String, usize), s: Seq<(String, usize)>)
    ensures
        inserta_ordenado(p, s).len() == s.len() + 1,
        inserta_ordenado(p, s).to_multiset() == s.to_multiset().insert(p),
        ordenada_desc(s) ==> ordenada_desc(inserta_ordenado(p, s)),
{
    broadcast use vstd::seq_lib::group_seq_properties;
    broadcast use vstd::seq_lib::to_multiset_insert;

    lemma_inserta_caracteriza(p, s);
    let j = pos_inserta(p, s);
    let r = inserta_ordenado(p, s);
    s.insert_ensures(j, p);
    if ordenada_desc(s) {
        assert forall|a: int, b: int| 0 <= a < b < r.len() implies (#[trigger] r[a]).1
            >= (#[trigger] r[b]).1 by {
            if b < j {
                assert(r[a] == s[a] && r[b] == s[b]);
            } else if a < j && b == j {
                assert(r[a] == s[a] && r[b] == p);
            } else if a < j && b > j {
                assert(r[a] == s[a] && r[b] == s[b - 1]);
                if b - 1 == a {
                    assert(s[a].1 >= p.1 && p.1 > s[j].1);
                    assert(j < s.len());
                    assert(false);
                }
            } else if a == j {
                assert(r[a] == p && r[b] == s[b - 1]);
                assert(s[j].1 < p.1);
                if b - 1 > j {
                    assert(s[j].1 >= s[b - 1].1);
                }
            } else {
                assert(r[a] == s[a - 1] && r[b] == s[b - 1]);
            }
        }
    }
}

/// El orden estable devuelve los mismos pares, de mayor a menor cuenta.
pub proof fn lemma_ordena_desc(s: Seq<(String, usize)>)
    ensures
        ordena_desc(s).len() == s.len(),
        ordena_desc(s).to_multiset() == s.to_multiset(),
        ordenada_desc(ordena_desc(s)),
    decreases s.len(),
{
    broadcast use vstd::seq_lib::group_seq_properties;

    if s.len() == 0 {
        assert(Seq::<(String, usize)>::empty().to_multiset() =~= Multiset::empty());
        assert(s.to_multiset() =~= Multiset::empty());
    } else {
        let frente = s.drop_last();
        lemma_ordena_desc(frente);
        lemma_inserta_ordenado(s.last(), ordena_desc(frente));
        assert(frente.push(s.last()) =~= s);
        assert(s.to_multiset() =~= frente.to_multiset().insert(s.last()));
    }
}

/// Si todo lo anterior a `j` tiene cuenta mayor o igual y `j` (si
/// existe) tiene cuenta menor, `j` es la posicion del hueco.
proof fn lemma_inserta_en_pos(p: (String, usize), s: Seq<(String, usize)>, j: int)
    requires
        0 <= j <= s.len(),
        forall|i: int| 0 <= i < j ==> (#[trigger] s[i]).1 >= p.1,
        j < s.len() ==> s[j].1 < p.1,
    ensures
        inserta_ordenado(p, s) == s.insert(j, p),
{
    lemma_inserta_caracteriza(p, s);
    let k = pos_inserta(p, s);
    if k < j {
        assert(s[k].1 >= p.1);
        assert(false);
    } else if k > j {
        assert(s[j].1 >= p.1);
        assert(false);
    }
}

impl DisponibilidadService {
    /// Cuantos empleados tienen reserva activa en cada slot de la
    /// lista: una entrada por inicio de slot, aunque la cuenta sea 0.
    pub fn resumen_ocupacion(slots: &[Slot], reservas: &[Reserva]) -> (m: HashMap<i64, usize>)
        ensures
            forall|i: int|
                0 <= i < slots@.len() ==> m@.contains_key((#[trigger] slots@[i]).inicio)
                    && m@[slots@[i].inicio] == cuenta_en_slot(slots@[i], reservas@),
            forall|t: i64|
                #[trigger] m@.contains_key(t) ==> exists|i: int|
                    0 <= i < slots@.len() && (#[trigger] slots@[i]).inicio == t,
    {
        broadcast use vstd::std_specs::hash::group_hash_axioms;

        let mut m: HashMap<i64, usize> = HashMap::new();
        let mut i: usize = 0;
        while i < slots.len()
            invariant
                i <= slots@.len(),
                forall|i2: int|
                    0 <= i2 < i ==> m@.contains_key((#[trigger] slots@[i2]).inicio)
                        && m@[slots@[i2].inicio] == cuenta_en_slot(slots@[i2], reservas@),
                forall|t: i64|
                    #[trigger] m@.contains_key(t) ==> exists|i2: int|
                        0 <= i2 < i && (#[trigger] slots@[i2]).inicio == t,
            decreases slots@.len() - i,
        {
            let slot = slots[i];
            let cuenta = cuenta_en_slot_exec(&slot, reservas);
            m.insert(slot.inicio, cuenta);
            proof {
                assert forall|i2: int|
                    0 <= i2 < i + 1 implies m@.contains_key((#[trigger] slots@[i2]).inicio)
                    && m@[slots@[i2].inicio] == cuenta_en_slot(slots@[i2], reservas@) by {
                    if slots@[i2].inicio == slots@[i as int].inicio {
                        assert(slots@[i2] == slots@[i as int]);
                    }
                }
            }
            i = i + 1;
        }
        m
    }

    /// Los empleados activos con su numero de reservas activas, de mas
    /// a menos ocupado; entre empatados se conserva el orden de entrada.
    pub fn empleados_mas_ocupados(empleados: &[Empleado], reservas: &[Reserva]) -> (r: Vec<
        (String, usize),
    >)
        ensures
            r@ == ordena_desc(pares_ocupacion(empleados@, reservas@)),
            ordenada_desc(r@),
    {
        let mut pares: Vec<(String, usize)> = Vec::new();
        let mut i: usize = 0;
        while i < empleados.len()
            invariant
                i <= empleados@.len(),
                pares@ =~= pares_ocupacion(empleados@.take(i as int), reservas@),
            decreases empleados@.len() - i,
        {
            proof {
                assert(empleados@.take(i as int + 1).drop_last() =~= empleados@.take(i as int));
                assert(empleados@.take(i as int + 1).last() == empleados@[i as int]);
            }
            let empleado = &empleados[i];
            if empleado.activo {
                let cuenta = cuenta_de_empleado_exec(empleado.id.as_str(), reservas);
                pares.push((empleado.nombre.clone(), cuenta));
            }
            i = i + 1;
        }
        proof {
            assert(empleados@.take(empleados@.len() as int) =~= empleados@);
        }
        let ghost pares_completos = pares@;
        let mut resultado: Vec<(String, usize)> = Vec::new();
        let mut idx: usize = 0;
        while idx < pares.len()
            invariant
                idx <= pares@.len(),
                pares@ == pares_completos,
                resultado@ =~= ordena_desc(pares@.take(idx as int)),
                resultado@.len() == idx,
            decreases pares@.len() - idx,
        {
            proof {
                assert(pares@.take(idx as int + 1).drop_last() =~= pares@.take(idx as int));
                assert(pares@.take(idx as int + 1).last() == pares@[idx as int]);
            }
            let origen = &pares[idx];
            let par = (origen.0.clone(), origen.1);
            let mut j: usize = 0;
            while j < resultado.len() && resultado[j].1 >= par.1
                invariant
                    j <= resultado@.len(),
                    par.1 == pares@[idx as int].1,
                    forall|i2: int| 0 <= i2 < j ==> (#[trigger] resultado@[i2]).1 >= par.1,
                decreases resultado@.len() - j,
            {
                j = j + 1;
            }
            proof {
                lemma_inserta_en_pos(par, resultado@, j as int);
            }
            resultado.insert(j, par);
            idx = idx + 1;
        }
        proof {
            assert(pares@.take(pares@.len() as int) =~= pares@);
            lemma_ordena_desc(pares@);
        }
        resultado
    }
}

/// Cuenta las reservas activas que caen en el slot.
fn cuenta_en_slot_exec(slot: &Slot, reservas: &[Reserva]) -> (c: usize)
    ensures
        c == cuenta_en_slot(*slot, reservas@),
{
    let mut c: usize = 0;
    let mut i: usize = 0;
    while i < reservas.len()
        invariant
            i <= reservas@.len(),
            c == cuenta_en_slot(*slot, reservas@.take(i as int)),
            c <= i,
        decreases reservas@.len() - i,
    {
        proof {
            assert(reservas@.take(i as int + 1).drop_last() =~= reservas@.take(i as int));
            assert(reservas@.take(i as int + 1).last() == reservas@[i as int]);
        }
        let actual = &reservas[i];
        if actual.slot == *slot && actual.esta_activa() {
            c = c + 1;
        }
        i = i + 1;
    }
    proof {
        assert(reservas@.take(reservas@.len() as int) =~= reservas@);
    }
    c
}

/// Cuenta las reservas activas del empleado.
fn cuenta_de_empleado_exec(empleado_id: &str, reservas: &[Reserva]) -> (c: usize)
    ensures
        c == cuenta_de_empleado(empleado_id@, reservas@),
{
    let mut c: usize = 0;
    let mut i: usize = 0;
    while i < reservas.len()
        invariant
            i <= reservas@.len(),
            c == cuenta_de_empleado(empleado_id@, reservas@.take(i as int)),
            c <= i,
        decreases reservas@.len() - i,
    {
        proof {
            assert(reservas@.take(i as int + 1).drop_last() =~= reservas@.take(i as int));
            assert(reservas@.take(i as int + 1).last() == reservas@[i as int]);
        }
        let actual = &reservas[i];
        if textos_iguales(actual.empleado_id.as_str(), empleado_id) && actual.esta_activa() {
            c = c + 1;
        }
        i = i + 1;
    }
    proof {
        assert(reservas@.take(reservas@.len() as int) =~= reservas@);
    }
    c
}

/// Indice de la primera entrada de la tabla del empleado y el slot, o
/// `-1` si ninguna.
pub open spec fn indice_celda(
    celdas: Seq<DisponibilidadSlot>,
    empleado_id: Seq<char>,
    slot: Slot,
) -> int
    decreases celdas.len(),
{
    if celdas.len() == 0 {
        -1
    } else if celdas[0].empleado_id@ == empleado_id && celdas[0].slot == slot {
        0
    } else {
        let resto = indice_celda(celdas.drop_first(), empleado_id, slot);
        if resto < 0 {
            -1
        } else {
            resto + 1
        }
    }
}

/// El indice de celda es `-1` exactamente cuando no hay entrada del
/// empleado y el slot; si no, apunta a la primera.
pub proof fn lemma_indice_celda(celdas: Seq<DisponibilidadSlot>, empleado_id: Seq<char>, slot: Slot)
    ensures
        -1 <= indice_celda(celdas, empleado_id, slot) < celdas.len(),
        indice_celda(celdas, empleado_id, slot) == -1 ==> forall|i: int|
            0 <= i < celdas.len() ==> !((#[trigger] celdas[i]).empleado_id@ == empleado_id
                && celdas[i].slot == slot),
        indice_celda(celdas, empleado_id, slot) >= 0 ==> {
            let k = indice_celda(celdas, empleado_id, slot);
            &&& celdas[k].empleado_id@ == empleado_id && celdas[k].slot == slot
            &&& forall|i: int|
                0 <= i < k ==> !((#[trigger] celdas[i]).empleado_id@ == empleado_id
                    && celdas[i].slot == slot)
        },
    decreases celdas.len(),
{
    if celdas.len() == 0 {
    } else if celdas[0].empleado_id@ == empleado_id && celdas[0].slot == slot {
    } else {
        let cola = celdas.drop_first();
        lemma_indice_celda(cola, empleado_id, slot);
        assert(forall|i: int| 0 <= i < cola.len() ==> #[trigger] cola[i] == celdas[i + 1]);
        let resto = indice_celda(cola, empleado_id, slot);
        if resto == -1 {
            assert forall|i: int| 0 <= i < celdas.len() implies !((#[trigger] celdas[i]).empleado_id@
                == empleado_id && celdas[i].slot == slot) by {
                if i > 0 {
                    assert(celdas[i] == cola[i - 1]);
                }
            }
        } else {
            assert(celdas[resto + 1] == cola[resto]);
            assert forall|i: int| 0 <= i < resto + 1 implies !((#[trigger] celdas[i]).empleado_id@
                == empleado_id && celdas[i].slot == slot) by {
                if i > 0 {
                    assert(celdas[i] == cola[i - 1]);
                }
            }
        }
    }
}

/// Si nada antes de `i` es del empleado y el slot y `celdas[i]` lo es,
/// `i` es la primera entrada.
proof fn lemma_indice_celda_en(
    celdas: Seq<DisponibilidadSlot>,
    empleado_id: Seq<char>,
    slot: Slot,
    i: int,
)
    requires
        0 <= i < celdas.len(),
        celdas[i].empleado_id@ == empleado_id && celdas[i].slot == slot,
        forall|j: int|
            0 <= j < i ==> !((#[trigger] celdas[j]).empleado_id@ == empleado_id && celdas[j].slot
                == slot),
    ensures
        indice_celda(celdas, empleado_id, slot) == i,
{
    lemma_indice_celda(celdas, empleado_id, slot);
    let k = indice_celda(celdas, empleado_id, slot);
    if k == -1 {
        assert(!(celdas[i].empleado_id@ == empleado_id && celdas[i].slot == slot));
        assert(false);
    } else if k < i {
        assert(!(celdas[k].empleado_id@ == empleado_id && celdas[k].slot == slot));
        assert(false);
    } else if k > i {
        assert(!(celdas[i].empleado_id@ == empleado_id && celdas[i].slot == slot));
        assert(false);
    }
}

/// Separador entre columnas de la tabla de texto.
pub open spec fn separador_celda() -> Seq<char> {
    seq![' ', '|', ' ']
}

/// Celdas del encabezado: la hora de cada slot centrada en su columna.
pub open spec fn celdas_encabezado(slots: Seq<Slot>) -> Seq<char>
    decreases slots.len(),
{
    if slots.len() == 0 {
        Seq::empty()
    } else {
        celdas_encabezado(slots.drop_last()) + separador_celda() + centrado(
            digitos(hora_de(slots.last().inicio as int) as nat),
            12,
        )
    }
}

/// Simbolo con el que se pinta la celda de un empleado y un slot:
/// libre, ocupada, o sin entrada en la tabla.
pub open spec fn simbolo_celda(
    celdas: Seq<DisponibilidadSlot>,
    empleado_id: Seq<char>,
    slot: Slot,
) -> Seq<char> {
    let k = indice_celda(celdas, empleado_id, slot);
    if k < 0 {
        seq![' ', '?', ' ']
    } else if celdas[k].disponible {
        seq![' ', '✓', ' ']
    } else {
        seq![' ', '✗', ' ']
    }
}

/// Celdas de la fila de un empleado, una por slot.
pub open spec fn celdas_fila(
    e: Empleado,
    slots: Seq<Slot>,
    celdas: Seq<DisponibilidadSlot>,
) -> Seq<char>
    decreases slots.len(),
{
    if slots.len() == 0 {
        Seq::empty()
    } else {
        celdas_fila(e, slots.drop_last(), celdas) + separador_celda() + centrado(
            simbolo_celda(celdas, e.id@, slots.last()),
            12,
        )
    }
}

/// Filas de la tabla de texto: nombre alineado y una celda por slot.
pub open spec fn filas_tabla(
    empleados: Seq<Empleado>,
    slots: Seq<Slot>,
    celdas: Seq<DisponibilidadSlot>,
) -> Seq<char>
    decreases empleados.len(),
{
    if empleados.len() == 0 {
        Seq::empty()
    } else {
        filas_tabla(empleados.drop_last(), slots, celdas) + alineado_izq(
            empleados.last().nombre@,
            20,
        ) + celdas_fila(empleados.last(), slots, celdas) + seq!['\n']
    }
}

/// La tabla entera como texto: encabezado con las horas, una linea de
/// guiones, y una fila por empleado.
pub open spec fn texto_tabla(
    slots: Seq<Slot>,
    empleados: Seq<Empleado>,
    celdas: Seq<DisponibilidadSlot>,
) -> Seq<char> {
    alineado_izq(seq!['E', 'm', 'p', 'l', 'e', 'a', 'd', 'o'], 20) + celdas_encabezado(slots)
        + seq!['\n'] + repetido('-', 20 + slots.len() * 15 as int) + seq!['\n'] + filas_tabla(
        empleados,
        slots,
        celdas,
    )
}

impl TablaDisponibilidad {
    /// La primera entrada de la tabla para el empleado y el slot, si
    /// existe.
    pub fn get_disponibilidad<'a>(&'a self, empleado_id: &str, slot: &Slot) -> (r: Option<
        &'a DisponibilidadSlot,
    >)
        ensures
            r is Some <==> indice_celda(self.disponibilidad@, empleado_id@, *slot) >= 0,
            r matches Some(d) ==> *d == self.disponibilidad@[indice_celda(
                self.disponibilidad@,
                empleado_id@,
                *slot,
            )],
    {
        let mut i: usize = 0;
        while i < self.disponibilidad.len()
            invariant
                i <= self.disponibilidad@.len(),
                forall|j: int|
                    0 <= j < i ==> !((#[trigger] self.disponibilidad@[j]).empleado_id@
                        == empleado_id@ && self.disponibilidad@[j].slot == *slot),
            decreases self.disponibilidad@.len() - i,
        {
            let celda_actual = &self.disponibilidad[i];
            if textos_iguales(celda_actual.empleado_id.as_str(), empleado_id) && celda_actual.slot
                == *slot {
                proof {
                    lemma_indice_celda_en(self.disponibilidad@, empleado_id@, *slot, i as int);
                }
                return Some(celda_actual);
            }
            i = i + 1;
        }
        proof {
            lemma_indice_celda(self.disponibilidad@, empleado_id@, *slot);
        }
        None
    }

    /// Pinta la tabla como texto: las horas de los slots de encabezado
    /// y una fila por empleado con un simbolo por celda.
    pub fn formato_texto(&self) -> (r: String)
        requires
            self.slots@.len() * 15 + 20 <= usize::MAX,
        ensures
            r@ == texto_tabla(self.slots@, self.empleados@, self.disponibilidad@),
    {
        let mut s = String::new();
        agrega_alineado_izq(&mut s, "Empleado", 20);
        proof {
            reveal_strlit("Empleado");
            assert("Empleado"@ =~= seq!['E', 'm', 'p', 'l', 'e', 'a', 'd', 'o']);
        }
        let ghost titulo = alineado_izq(seq!['E', 'm', 'p', 'l', 'e', 'a', 'd', 'o'], 20);
        let mut j: usize = 0;
        while j < self.slots.len()
            invariant
                j <= self.slots@.len(),
                s@ =~= titulo + celdas_encabezado(self.slots@.take(j as int)),
                titulo == alineado_izq(seq!['E', 'm', 'p', 'l', 'e', 'a', 'd', 'o'], 20),
            decreases self.slots@.len() - j,
        {
            proof {
                assert(self.slots@.take(j as int + 1).drop_last() =~= self.slots@.take(j as int));
                assert(self.slots@.take(j as int + 1).last() == self.slots@[j as int]);
                reveal_strlit(" | ");
            }
            s.append(" | ");
            let hora = hora_de_exec(self.slots[j].inicio);
            let mut cifras = String::new();
            agrega_digitos(&mut cifras, hora as u64);
            agrega_centrado(&mut s, cifras.as_str(), 12);
            j = j + 1;
            proof {
                assert(s@ =~= titulo + celdas_encabezado(self.slots@.take(j as int)));
            }
        }
        proof {
            assert(self.slots@.take(self.slots@.len() as int) =~= self.slots@);
            reveal_strlit("\n");
        }
        s.append("\n");
        agrega_guiones(&mut s, 20 + self.slots.len() * 15);
        s.append("\n");
        let ghost cabecera = titulo + celdas_encabezado(self.slots@) + seq!['\n'] + repetido(
            '-',
            20 + self.slots@.len() * 15 as int,
        ) + seq!['\n'];
        proof {
            assert(s@ =~= cabecera);
        }
        let mut i: usize = 0;
        while i < self.empleados.len()
            invariant
                i <= self.empleados@.len(),
                self.slots@.len() * 15 + 20 <= usize::MAX,
                s@ =~= cabecera + filas_tabla(
                    self.empleados@.take(i as int),
                    self.slots@,
                    self.disponibilidad@,
                ),
                cabecera == titulo + celdas_encabezado(self.slots@) + seq!['\n'] + repetido(
                    '-',
                    20 + self.slots@.len() * 15 as int,
                ) + seq!['\n'],
            decreases self.empleados@.len() - i,
        {
            proof {
                assert(self.empleados@.take(i as int + 1).drop_last() =~= self.empleados@.take(
                    i as int,
                ));
                assert(self.empleados@.take(i as int + 1).last() == self.empleados@[i as int]);
            }
            let empleado = &self.empleados[i];
            agrega_alineado_izq(&mut s, empleado.nombre.as_str(), 20);
            let ghost hecho = cabecera + filas_tabla(
                self.empleados@.take(i as int),
                self.slots@,
                self.disponibilidad@,
            ) + alineado_izq(self.empleados@[i as int].nombre@, 20);
            let mut j2: usize = 0;
            while j2 < self.slots.len()
                invariant
                    j2 <= self.slots@.len(),
                    i < self.empleados@.len(),
                    s@ =~= hecho + celdas_fila(
                        self.empleados@[i as int],
                        self.slots@.take(j2 as int),
                        self.disponibilidad@,
                    ),
                decreases self.slots@.len() - j2,
            {
                proof {
                    assert(self.slots@.take(j2 as int + 1).drop_last() =~= self.slots@.take(
                        j2 as int,
                    ));
                    assert(self.slots@.take(j2 as int + 1).last() == self.slots@[j2 as int]);
                    reveal_strlit(" | ");
                }
                let empleado = &self.empleados[i];
                s.append(" | ");
                let slot = self.slots[j2];
                let entrada = self.get_disponibilidad(empleado.id.as_str(), &slot);
                match entrada {
                    None => {
                        proof {
                            reveal_strlit(" ? ");
                        }
                        agrega_centrado(&mut s, " ? ", 12);
                    },
                    Some(celda_hallada) => {
                        if celda_hallada.disponible {
                            proof {
                                reveal_strlit(" ✓ ");
                            }
                            agrega_centrado(&mut s, " ✓ ", 12);
                        } else {
                            proof {
                                reveal_strlit(" ✗ ");
                            }
                            agrega_centrado(&mut s, " ✗ ", 12);
                        }
                    },
                }
                j2 = j2 + 1;
                proof {
                    assert(s@ =~= hecho + celdas_fila(
                        self.empleados@[i as int],
                        self.slots@.take(j2 as int),
                        self.disponibilidad@,
                    ));
                }
            }
            proof {
                assert(self.slots@.take(self.slots@.len() as int) =~= self.slots@);
                reveal_strlit("\n");
            }
            s.append("\n");
            i = i + 1;
            proof {
                assert(s@ =~= cabecera + filas_tabla(
                    self.empleados@.take(i as int),
                    self.slots@,
                    self.disponibilidad@,
                ));
            }
        }
        proof {
            assert(self.empleados@.take(self.empleados@.len() as int) =~= self.empleados@);
            assert(s@ =~= texto_tabla(self.slots@, self.empleados@, self.disponibilidad@));
        }
        s
    }
}

/// Con una sola reserva activa en la lista, su empleado esta ocupado en
/// su slot, y cualquier otro empleado o slot queda libre.
pub proof fn lemma_reserva_unica_bloquea(r0: Reserva, reservas: Seq<Reserva>)
    requires
        reservas =~= seq![r0],
        r0.esta_activa_spec(),
    ensures
        ocupado(r0.empleado_id@, r0.slot, reservas),
        forall|emp: Seq<char>, s: Slot|
            emp != r0.empleado_id@ || s != r0.slot ==> !#[trigger] ocupado(emp, s, reservas),
{
    assert(coincide(reservas[0], r0.empleado_id@, r0.slot));
}

/// Cancelar la unica reserva que contaba contra un empleado y un slot
/// lo deja disponible de nuevo: la fila sigue existiendo, pero ya no
/// esta activa y no cuenta.
pub proof fn lemma_cancelar_libera(reservas: Seq<Reserva>, k: int)
    requires
        0 <= k < reservas.len(),
        forall|j: int|
            0 <= j < reservas.len() && j != k ==> !coincide(
                #[trigger] reservas[j],
                reservas[k].empleado_id@,
                reservas[k].slot,
            ),
    ensures
        ({
            let cancelada = Reserva {
                estado: crate::reserva::EstadoReserva::Cancelada,
                ..reservas[k]
            };
            let despues = reservas.update(k, cancelada);
            &&& !cancelada.esta_activa_spec()
            &&& despues.len() == reservas.len()
            &&& !ocupado(reservas[k].empleado_id@, reservas[k].slot, despues)
        }),
{
    let cancelada = Reserva { estado: crate::reserva::EstadoReserva::Cancelada, ..reservas[k] };
    let despues = reservas.update(k, cancelada);
    assert forall|i: int| 0 <= i < despues.len() implies !coincide(
        #[trigger] despues[i],
        reservas[k].empleado_id@,
        reservas[k].slot,
    ) by {
        if i != k {
            assert(despues[i] == reservas[i]);
        }
    }
}

/// Sin empleados activos, todos los slots quedan para todos.
pub proof fn lemma_sin_activos_todo_libre(
    empleados: Seq<Empleado>,
    slots: Seq<Slot>,
    reservas: Seq<Reserva>,
)
    requires
        forall|i: int| 0 <= i < empleados.len() ==> !(#[trigger] empleados[i]).activo,
    ensures
        slots_para_todos(empleados, slots, reservas) == slots,
    decreases slots.len(),
{
    if slots.len() == 0 {
        assert(slots_para_todos(empleados, slots, reservas) =~= slots);
    } else {
        lemma_sin_activos_todo_libre(empleados, slots.drop_last(), reservas);
        assert(todos_disponibles(empleados, slots.last(), reservas));
        assert(slots_para_todos(empleados, slots, reservas) =~= slots);
    }
}

/// Los slots de la lista distintos de `s0`, en orden.
pub open spec fn quita_slot(slots: Seq<Slot>, s0: Slot) -> Seq<Slot>
    decreases slots.len(),
{
    if slots.len() == 0 {
        Seq::empty()
    } else {
        quita_slot(slots.drop_last(), s0) + if slots.last() != s0 {
            seq![slots.last()]
        } else {
            Seq::empty()
        }
    }
}

/// Con un unico empleado, que tiene una unica reserva activa en el slot
/// `s0`, quedan para todos exactamente los slots distintos de `s0`.
pub proof fn lemma_un_empleado_reservado(
    e: Empleado,
    r0: Reserva,
    slots: Seq<Slot>,
    empleados: Seq<Empleado>,
    reservas: Seq<Reserva>,
)
    requires
        empleados =~= seq![e],
        e.activo,
        reservas =~= seq![r0],
        r0.empleado_id@ == e.id@,
        r0.esta_activa_spec(),
    ensures
        slots_para_todos(empleados, slots, reservas) == quita_slot(slots, r0.slot),
    decreases slots.len(),
{
    if slots.len() == 0 {
    } else {
        lemma_un_empleado_reservado(e, r0, slots.drop_last(), empleados, reservas);
        let s = slots.last();
        if s == r0.slot {
            assert(coincide(reservas[0], e.id@, s));
            assert(ocupado(e.id@, s, reservas));
            assert(empleados[0].activo && ocupado(empleados[0].id@, s, reservas));
            assert(!todos_disponibles(empleados, s, reservas));
        } else {
            assert(todos_disponibles(empleados, s, reservas));
        }
    }
}

} // verus!
