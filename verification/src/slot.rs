//! Objeto de valor: slot de tiempo.
//!
//! Un slot es una ventana de una hora anclada al comienzo de la hora, y
//! queda identificado por su instante de inicio en segundos desde la
//! epoca UTC. La igualdad y el hash van solo por `inicio`.

use vstd::prelude::*;
use crate::externos::{fecha_civil_de, fecha_de_instante};
use crate::texto::{
    agrega_con_ceros, agrega_con_signo, con_ceros, con_signo,
};
use crate::tiempo::{
    comienzo_de_hora, comienzo_de_hora_exec, fecha_valida, hora_de, hora_de_exec, hora_valida,
    instante_acotado, instante_civil, instante_civil_exec, lemma_comienzo_idempotente,
    lemma_instante_civil_acotado, lemma_instante_civil_alineado, ANIO_MAX, ANIO_MIN,
};

verus! {

#[derive(Debug, Clone, Copy, PartialEq, Eq, Structural, Hash)]
pub struct Slot {
    pub inicio: i64,
}

/// Texto `AAAA-MM-DD HH:00-HH:00` con el que se muestra un slot.
pub open spec fn legible(t: int) -> Seq<char> {
    let f = fecha_civil_de(t);
    con_signo(f.0, 4) + seq!['-'] + con_ceros(f.1 as nat, 2) + seq!['-'] + con_ceros(
        f.2 as nat,
        2,
    ) + seq![' '] + con_ceros(hora_de(t) as nat, 2) + seq![':', '0', '0', '-'] + con_ceros(
        hora_de(t + 3600) as nat,
        2,
    ) + seq![':', '0', '0']
}

impl Slot {
    /// Hora del dia (0..24) en la que comienza el slot.
    pub open spec fn hora(self) -> int {
        hora_de(self.inicio as int)
    }

    /// Un slot es de horario laboral si comienza entre las 9:00 y las 17:00.
    pub open spec fn es_horario_laboral_spec(self) -> bool {
        9 <= self.hora() < 18
    }

    /// Rebaja cualquier instante al comienzo de su hora; siempre tiene exito.
    pub fn new(fecha_hora: i64) -> (s: Slot)
        requires
            fecha_hora >= i64::MIN + 3599,
        ensures
            s.inicio == comienzo_de_hora(fecha_hora as int),
            s.inicio % 3600 == 0,
            s.inicio <= fecha_hora < s.inicio + 3600,
    {
        Slot { inicio: comienzo_de_hora_exec(fecha_hora) }
    }

    /// Construye el slot de una fecha y hora concretas en UTC, o `None`
    /// si la fecha o la hora no existen en el calendario.
    pub fn from_date_and_hour(year: i32, month: u32, day: u32, hour: u32) -> (r: Option<Slot>)
        ensures
            r is Some <==> fecha_valida(year as int, month as int, day as int) && hora_valida(
                hour as int,
            ),
            r matches Some(s) ==> {
                &&& s.inicio == instante_civil(year as int, month as int, day as int, hour as int)
                &&& s.inicio % 3600 == 0
                &&& s.hora() == hour
                &&& instante_acotado(s.inicio as int)
                &&& instante_acotado(s.inicio as int + 3600)
            },
    {
        if !fecha_valida_exec(year, month, day) || hour >= 24 {
            return None;
        }
        Some(Slot { inicio: instante_civil_exec(year, month, day, hour) })
    }

    /// Instante en el que acaba el slot, una hora despues de empezar.
    pub fn fin(&self) -> (r: i64)
        requires
            self.inicio + 3600 <= i64::MAX,
        ensures
            r == self.inicio + 3600,
    {
        self.inicio + 3600
    }

    /// Verdadero si el slot cae en horario laboral (9:00 - 18:00).
    pub fn es_horario_laboral(&self) -> (b: bool)
        ensures
            b == self.es_horario_laboral_spec(),
    {
        let hora = hora_de_exec(self.inicio);
        9 <= hora && hora < 18
    }

    /// El slot que empieza una hora despues.
    pub fn siguiente(&self) -> (s: Slot)
        requires
            self.inicio + 3600 <= i64::MAX,
        ensures
            s.inicio == self.inicio + 3600,
    {
        Slot { inicio: self.inicio + 3600 }
    }

    /// Los nueve slots laborales de un dia, de las 9:00 a las 17:00 en
    /// orden ascendente; vacio si la fecha no existe en el calendario.
    pub fn slots_del_dia(year: i32, month: u32, day: u32) -> (r: Vec<Slot>)
        ensures
            fecha_valida(year as int, month as int, day as int) ==> {
                &&& r@.len() == 9
                &&& forall|j: int|
                    0 <= j < 9 ==> (#[trigger] r@[j]).inicio == instante_civil(
                        year as int,
                        month as int,
                        day as int,
                        9 + j,
                    )
                &&& forall|j: int| 0 <= j < 9 ==> (#[trigger] r@[j]).hora() == 9 + j
                &&& forall|i: int, j: int| 0 <= i < j < 9 ==> r@[i].inicio < r@[j].inicio
            },
            !fecha_valida(year as int, month as int, day as int) ==> r@.len() == 0,
    {
        let mut slots: Vec<Slot> = Vec::new();
        let mut hora: u32 = 9;
        while hora < 18
            invariant
                9 <= hora <= 18,
                fecha_valida(year as int, month as int, day as int) ==> {
                    &&& slots@.len() == hora - 9
                    &&& forall|j: int|
                        0 <= j < hora - 9 ==> (#[trigger] slots@[j]).inicio == instante_civil(
                            year as int,
                            month as int,
                            day as int,
                            9 + j,
                        )
                    &&& forall|j: int|
                        0 <= j < hora - 9 ==> (#[trigger] slots@[j]).hora() == 9 + j
                },
                !fecha_valida(year as int, month as int, day as int) ==> slots@.len() == 0,
            decreases 18 - hora,
        {
            if let Some(slot) = Slot::from_date_and_hour(year, month, day, hora) {
                slots.push(slot);
            }
            hora = hora + 1;
        }
        proof {
            if fecha_valida(year as int, month as int, day as int) {
                assert forall|i: int, j: int| 0 <= i < j < 9 implies slots@[i].inicio
                    < slots@[j].inicio by {
                    lemma_instantes_del_dia_crecen(
                        year as int,
                        month as int,
                        day as int,
                        9 + i,
                        9 + j,
                    );
                }
            }
        }
        slots
    }

    /// Texto `AAAA-MM-DD HH:00-HH:00` del slot.
    pub fn formato_legible(&self) -> (r: String)
        requires
            instante_acotado(self.inicio as int),
        ensures
            r@ == legible(self.inicio as int),
    {
        let fecha = fecha_de_instante(self.inicio);
        let mut s = String::new();
        agrega_con_signo(&mut s, fecha.0 as i64, 4);
        s.append("-");
        agrega_con_ceros(&mut s, fecha.1 as u64, 2);
        s.append("-");
        agrega_con_ceros(&mut s, fecha.2 as u64, 2);
        s.append(" ");
        let hora_inicio = hora_de_exec(self.inicio);
        agrega_con_ceros(&mut s, hora_inicio as u64, 2);
        s.append(":00-");
        let hora_fin = hora_de_exec(self.inicio + 3600);
        agrega_con_ceros(&mut s, hora_fin as u64, 2);
        s.append(":00");
        proof {
            reveal_strlit("-");
            reveal_strlit(" ");
            reveal_strlit(":00-");
            reveal_strlit(":00");
            assert(s@ =~= legible(self.inicio as int));
        }
        s
    }
}

/// Comprueba que una fecha existe en el calendario admitido.
pub fn fecha_valida_exec(y: i32, m: u32, d: u32) -> (b: bool)
    ensures
        b == fecha_valida(y as int, m as int, d as int),
{
    if y < ANIO_MIN || y > ANIO_MAX || m < 1 || m > 12 || d < 1 {
        return false;
    }
    let bisiesto = match y.checked_rem_euclid(4) {
        Some(r) => r == 0,
        None => false,
    } && (match y.checked_rem_euclid(100) {
        Some(r) => r != 0,
        None => false,
    } || match y.checked_rem_euclid(400) {
        Some(r) => r == 0,
        None => false,
    });
    let tope: u32 = if m == 2 {
        if bisiesto {
            29
        } else {
            28
        }
    } else if m == 4 || m == 6 || m == 9 || m == 11 {
        30
    } else {
        31
    };
    d <= tope
}

/// En un mismo dia, a mas hora, mas tarde el instante.
pub proof fn lemma_instantes_del_dia_crecen(y: int, m: int, d: int, h1: int, h2: int)
    requires
        h1 < h2,
    ensures
        instante_civil(y, m, d, h1) < instante_civil(y, m, d, h2),
{
    assert(h1 * 3600 < h2 * 3600) by (nonlinear_arith)
        requires h1 < h2;
}

/// Para toda fecha y hora validas, el slot construido de ellas es de
/// horario laboral exactamente cuando la hora esta en `[9, 18)`.
pub proof fn lemma_horario_laboral_por_hora(y: int, m: int, d: int, h: int)
    requires
        fecha_valida(y, m, d),
        hora_valida(h),
    ensures
        (Slot { inicio: instante_civil(y, m, d, h) as i64 }).es_horario_laboral_spec() <==> (9 <= h
            < 18),
{
    lemma_instante_civil_acotado(y, m, d, h);
    lemma_instante_civil_alineado(y, m, d, h);
}

/// Normalizar el inicio de un slot construido de fecha y hora no lo
/// cambia: `Slot::new` sobre ese instante devuelve el mismo slot.
pub proof fn lemma_normalizacion_idempotente(y: int, m: int, d: int, h: int)
    requires
        hora_valida(h),
    ensures
        comienzo_de_hora(instante_civil(y, m, d, h)) == instante_civil(y, m, d, h),
{
    lemma_instante_civil_alineado(y, m, d, h);
    lemma_comienzo_idempotente(instante_civil(y, m, d, h));
}

} // verus!
