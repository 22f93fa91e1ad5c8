//! Llamadas a crates externos en las que el resto de la biblioteca confia:
//! el reloj del sistema y el generador de identificadores. Cada contrato
//! dice solo lo que la documentacion y el codigo del crate muestran.

use chrono::Datelike;
use vstd::prelude::*;
use crate::tiempo::{dia_civil, dias_del_mes, instante_acotado};

verus! {

/// La fecha del calendario (anio, mes, dia) en la que cae un instante,
/// como la determina el calendario gregoriano proleptico en UTC.
pub uninterp spec fn fecha_civil_de(t: int) -> (int, int, int);

/// Se apoya en `chrono::Utc::now` y en `chrono::DateTime::timestamp`:
/// el reloj del sistema en segundos desde la epoca. `Utc::now` no
/// devuelve instantes anteriores a 1970.
#[verifier::external_body]
pub fn ahora_unix() -> (r: i64)
    ensures
        r >= 0,
{
    chrono::Utc::now().timestamp()
}

/// Se apoya en `chrono::DateTime::from_timestamp` y en los metodos
/// `year`, `month` y `day` de `chrono::Datelike`: la fecha UTC de un
/// instante. Devuelven una fecha real del calendario cuyo numero de
/// dia es el del instante, y dentro de la cota de instantes el anio
/// queda dentro de la cota dada.
#[verifier::external_body]
pub fn fecha_de_instante(t: i64) -> (f: (i32, u32, u32))
    requires
        instante_acotado(t as int),
    ensures
        (f.0 as int, f.1 as int, f.2 as int) == fecha_civil_de(t as int),
        -260000 <= f.0 <= 260000,
        1 <= f.1 <= 12,
        1 <= f.2 <= dias_del_mes(f.0 as int, f.1 as int),
        dia_civil(f.0 as int, f.1 as int, f.2 as int) == t as int / 86400,
{
    match chrono::DateTime::from_timestamp(t, 0) {
        Some(fecha_hora) => (fecha_hora.year(), fecha_hora.month(), fecha_hora.day()),
        None => (1970, 1, 1),
    }
}

/// Se apoya en `uuid::Uuid::new_v4` y en su forma con guiones: un
/// identificador aleatorio de 36 caracteres. De un valor aleatorio no
/// se promete nada mas que su longitud.
#[verifier::external_body]
pub fn nuevo_id() -> (r: String)
    ensures
        r@.len() == 36,
{
    uuid::Uuid::new_v4().to_string()
}

} // verus!
