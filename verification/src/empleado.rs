//! Entidad de dominio: empleado, sujeto de las reservas.

use vstd::prelude::*;

verus! {

/// Un empleado que puede tener reservas asignadas. La identidad es `id`;
/// no se exige unicidad de `email`.
#[derive(Debug)]
pub struct Empleado {
    pub id: String,
    pub nombre: String,
    pub email: String,
    pub activo: bool,
}

impl Empleado {
    /// Siempre tiene exito y deja al empleado activo.
    pub fn new(id: String, nombre: String, email: String) -> (e: Empleado)
        ensures
            e.id == id,
            e.nombre == nombre,
            e.email == email,
            e.activo,
    {
        Empleado { id, nombre, email, activo: true }
    }

    /// Apaga `activo` sin tocar el resto; es idempotente.
    pub fn desactivar(&mut self)
        ensures
            *final(self) == (Empleado { activo: false, ..*old(self) }),
    {
        self.activo = false;
    }

    /// Enciende `activo` sin tocar el resto; es idempotente.
    pub fn activar(&mut self)
        ensures
            *final(self) == (Empleado { activo: true, ..*old(self) }),
    {
        self.activo = true;
    }
}

impl Clone for Empleado {
    fn clone(&self) -> (r: Self)
        ensures
            r == *self,
    {
        Empleado {
            id: self.id.clone(),
            nombre: self.nombre.clone(),
            email: self.email.clone(),
            activo: self.activo,
        }
    }
}

} // verus!
