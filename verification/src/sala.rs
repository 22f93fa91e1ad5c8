//! Entidad de dominio: sala de reuniones. Se registra y se persiste,
//! pero las reservas todavia no la referencian.

use vstd::prelude::*;
use vstd::string::StringExecFns;
use crate::texto::{es_blanca, es_texto_blanco};

verus! {

#[derive(Debug)]
pub struct Sala {
    pub id: String,
    pub nombre: String,
    pub capacidad: u32,
    pub activa: bool,
}

impl Sala {
    /// Valida al construir: rechaza un nombre en blanco y una capacidad
    /// nula; si pasa la validacion, la sala nace activa.
    pub fn new(id: String, nombre: String, capacidad: u32) -> (r: Result<Sala, String>)
        ensures
            r is Ok <==> !es_blanca(nombre@) && capacidad > 0,
            r matches Ok(s) ==> s.id == id && s.nombre == nombre && s.capacidad == capacidad
                && s.activa,
            es_blanca(nombre@) ==> (r matches Err(m) && m@ == "El nombre no puede estar vacío"@),
            !es_blanca(nombre@) && capacidad == 0 ==> (r matches Err(m) && m@
                == "La capacidad debe ser mayor a 0"@),
    {
        if es_texto_blanco(nombre.as_str()) {
            return Err(String::from_str("El nombre no puede estar vacío"));
        }
        if capacidad == 0 {
            return Err(String::from_str("La capacidad debe ser mayor a 0"));
        }
        Ok(Sala { id, nombre, capacidad, activa: true })
    }

    /// Apaga `activa` sin tocar el resto; es idempotente.
    pub fn desactivar(&mut self)
        ensures
            *final(self) == (Sala { activa: false, ..*old(self) }),
    {
        self.activa = false;
    }

    /// Enciende `activa` sin tocar el resto; es idempotente.
    pub fn activar(&mut self)
        ensures
            *final(self) == (Sala { activa: true, ..*old(self) }),
    {
        self.activa = true;
    }
}

impl Clone for Sala {
    fn clone(&self) -> (r: Self)
        ensures
            r == *self,
    {
        Sala {
            id: self.id.clone(),
            nombre: self.nombre.clone(),
            capacidad: self.capacidad,
            activa: self.activa,
        }
    }
}

} // verus!
