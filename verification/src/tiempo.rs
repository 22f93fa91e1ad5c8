//! Aritmetica de calendario y de instantes.
//!
//! Un instante es un numero de segundos desde 1970-01-01 00:00:00 UTC
//! (negativo para fechas anteriores). Las conversiones entre fechas del
//! calendario gregoriano proleptico y numeros de dia siguen la formula
//! clasica por eras de 400 anios.

use vstd::prelude::*;
use vstd::arithmetic::div_mod::{
    lemma_fundamental_div_mod, lemma_mod_multiples_vanish, lemma_small_mod,
};
use vstd::arithmetic::mul::lemma_mul_inequality;

verus! {

/// Primer anio que el calendario de esta biblioteca admite.
pub const ANIO_MIN: i32 = -250000;

/// Ultimo anio que el calendario de esta biblioteca admite.
pub const ANIO_MAX: i32 = 250000;

pub open spec fn es_bisiesto(y: int) -> bool {
    y % 4 == 0 && (y % 100 != 0 || y % 400 == 0)
}

pub open spec fn dias_del_mes(y: int, m: int) -> int {
    if m == 2 {
        if es_bisiesto(y) {
            29
        } else {
            28
        }
    } else if m == 4 || m == 6 || m == 9 || m == 11 {
        30
    } else {
        31
    }
}

/// Una fecha del calendario es valida si el anio cae en el rango admitido
/// y el mes y el dia existen en ese anio.
pub open spec fn fecha_valida(y: int, m: int, d: int) -> bool {
    ANIO_MIN <= y <= ANIO_MAX && 1 <= m <= 12 && 1 <= d <= dias_del_mes(y, m)
}

pub open spec fn hora_valida(h: int) -> bool {
    0 <= h < 24
}

/// Numero de dia de una fecha, contado desde 1970-01-01 (dia 0).
pub open spec fn dia_civil(y: int, m: int, d: int) -> int {
    let ya = if m <= 2 {
        y - 1
    } else {
        y
    };
    let era = ya / 400;
    let yoe = ya - era * 400;
    let mp = (m + 9) % 12;
    let doy = (153 * mp + 2) / 5 + d - 1;
    let doe = yoe * 365 + yoe / 4 - yoe / 100 + doy;
    era * 146097 + doe - 719468
}

/// Instante del comienzo de una hora en punto de una fecha.
pub open spec fn instante_civil(y: int, m: int, d: int, h: int) -> int {
    dia_civil(y, m, d) * 86400 + h * 3600
}

/// Hora del dia (0..24) en la que cae un instante.
pub open spec fn hora_de(t: int) -> int {
    (t % 86400) / 3600
}

/// Instante rebajado al comienzo de su hora.
pub open spec fn comienzo_de_hora(t: int) -> int {
    t - (t % 3600)
}

/// Cota que encierra el numero de dia de toda fecha valida.
pub open spec fn dia_acotado(dias: int) -> bool {
    -92200000 <= dias <= 92200000
}

/// Cota que encierra el instante de toda fecha y hora validas.
pub open spec fn instante_acotado(t: int) -> bool {
    -7966080086400 <= t <= 7966080086400
}

/// Comprueba que un instante cae dentro de la cota de instantes.
pub fn instante_acotado_exec(t: i64) -> (b: bool)
    ensures
        b == instante_acotado(t as int),
{
    -7966080086400 <= t && t <= 7966080086400
}

/// Numero de dia de una fecha valida del calendario.
pub fn dia_civil_exec(y: i32, m: u32, d: u32) -> (r: i64)
    requires
        fecha_valida(y as int, m as int, d as int),
    ensures
        r == dia_civil(y as int, m as int, d as int),
        dia_acotado(r as int),
{
    let ya: i64 = if m <= 2 {
        (y as i64) - 1
    } else {
        y as i64
    };
    let era: i64 = match ya.checked_div_euclid(400) {
        Some(q) => q,
        None => 0,
    };
    assert(era == ya as int / 400);
    assert(-627 <= era <= 626) by {
        lemma_fundamental_div_mod(ya as int, 400);
    };
    let yoe: i64 = ya - era * 400;
    assert(0 <= yoe < 400) by {
        lemma_fundamental_div_mod(ya as int, 400);
    };
    let mp: u32 = if m > 2 {
        m - 3
    } else {
        m + 9
    };
    assert(mp == (m + 9) % 12) by {
        if m > 2 {
            assert((m + 9) % 12 == m - 3) by {
                lemma_mod_multiples_vanish(1, m as int - 3, 12);
                lemma_small_mod((m - 3) as nat, 12);
            };
        } else {
            lemma_small_mod((m + 9) as nat, 12);
        }
    };
    let doy: u32 = (153 * mp + 2) / 5 + d - 1;
    assert(doy == (153 * (mp as int) + 2) / 5 + d - 1);
    assert(doy <= 365);
    let doe: i64 = yoe * 365 + yoe / 4 - yoe / 100 + doy as i64;
    assert(yoe / 4 == yoe as int / 4 && yoe / 100 == yoe as int / 100);
    assert(0 <= doe <= 146096);
    era * 146097 + doe - 719468
}

/// El instante de una fecha y hora validas, como segundos desde la epoca.
pub fn instante_civil_exec(y: i32, m: u32, d: u32, h: u32) -> (r: i64)
    requires
        fecha_valida(y as int, m as int, d as int),
        hora_valida(h as int),
    ensures
        r == instante_civil(y as int, m as int, d as int, h as int),
        r % 3600 == 0,
        hora_de(r as int) == h,
        instante_acotado(r as int),
        instante_acotado(r as int + 3600),
{
    let dias = dia_civil_exec(y, m, d);
    assert(-7966080000000 <= dias * 86400 <= 7966080000000) by {
        lemma_mul_inequality(dias as int, 92200000, 86400);
        lemma_mul_inequality(-92200000, dias as int, 86400);
    };
    let r = dias * 86400 + (h as i64) * 3600;
    proof {
        lemma_instante_civil_alineado(y as int, m as int, d as int, h as int);
    }
    r
}

/// Un instante construido de fecha y hora esta alineado a la hora y
/// conserva la hora con la que se construyo.
pub proof fn lemma_instante_civil_alineado(y: int, m: int, d: int, h: int)
    requires
        hora_valida(h),
    ensures
        instante_civil(y, m, d, h) % 3600 == 0,
        hora_de(instante_civil(y, m, d, h)) == h,
{
    let dias = dia_civil(y, m, d);
    let t = dias * 86400 + h * 3600;
    assert(t == 86400 * dias + h * 3600) by (nonlinear_arith)
        requires t == dias * 86400 + h * 3600;
    assert(t % 86400 == (h * 3600) % 86400) by {
        lemma_mod_multiples_vanish(dias, h * 3600, 86400);
    };
    assert(0 <= h * 3600 < 86400) by (nonlinear_arith)
        requires 0 <= h < 24;
    assert((h * 3600) % 86400 == h * 3600) by {
        lemma_small_mod((h * 3600) as nat, 86400);
    };
    assert((h * 3600) / 3600 == h) by (nonlinear_arith);
    assert(t == (24 * dias + h) * 3600) by (nonlinear_arith)
        requires t == dias * 86400 + h * 3600;
    assert(t % 3600 == 0) by {
        lemma_mod_multiples_vanish(24 * dias + h, 0, 3600);
        lemma_small_mod(0, 3600);
    };
}

/// La hora del dia de un instante cualquiera.
pub fn hora_de_exec(t: i64) -> (h: u32)
    ensures
        h == hora_de(t as int),
        0 <= h < 24,
{
    let resto: i64 = match t.checked_rem_euclid(86400) {
        Some(r) => r,
        None => 0,
    };
    assert(resto == t as int % 86400);
    assert(0 <= resto < 86400) by {
        lemma_fundamental_div_mod(t as int, 86400);
    };
    let h64: i64 = match resto.checked_div_euclid(3600) {
        Some(q) => q,
        None => 0,
    };
    assert(0 <= h64 < 24) by {
        lemma_fundamental_div_mod(resto as int, 3600);
    };
    h64 as u32
}

/// Rebaja un instante al comienzo de su hora.
pub fn comienzo_de_hora_exec(t: i64) -> (r: i64)
    requires
        t >= i64::MIN + 3599,
    ensures
        r == comienzo_de_hora(t as int),
        r % 3600 == 0,
        r <= t < r + 3600,
{
    let resto: i64 = match t.checked_rem_euclid(3600) {
        Some(r) => r,
        None => 0,
    };
    assert(resto == t as int % 3600);
    assert(0 <= resto < 3600) by {
        lemma_fundamental_div_mod(t as int, 3600);
    };
    let r = t - resto;
    assert(r % 3600 == 0) by {
        lemma_fundamental_div_mod(t as int, 3600);
        assert(r == 3600 * (t as int / 3600));
        lemma_mod_multiples_vanish(t as int / 3600, 0, 3600);
        lemma_small_mod(0, 3600);
    };
    r
}

/// El instante de toda fecha y hora validas cae dentro de la cota de
/// instantes, con sitio para una hora mas.
pub proof fn lemma_instante_civil_acotado(y: int, m: int, d: int, h: int)
    requires
        fecha_valida(y, m, d),
        hora_valida(h),
    ensures
        instante_acotado(instante_civil(y, m, d, h)),
        instante_acotado(instante_civil(y, m, d, h) + 3600),
{
    let ya = if m <= 2 {
        y - 1
    } else {
        y
    };
    lemma_fundamental_div_mod(ya, 400);
    lemma_fundamental_div_mod(m + 9, 12);
    let era = ya / 400;
    assert(-626 <= era <= 625);
    let dias = dia_civil(y, m, d);
    assert(dia_acotado(dias));
}

/// Rebajar a la hora no cambia un instante ya alineado.
pub proof fn lemma_comienzo_idempotente(t: int)
    requires
        t % 3600 == 0,
    ensures
        comienzo_de_hora(t) == t,
{
}

} // verus!
