//! Sistema de reservas de salas de reuniones: empleados, slots de una
//! hora y reservas, con un servicio de disponibilidad sobre los tres,
//! almacenes en memoria y los casos de uso montados sobre puertos.

pub mod aplicacion;
pub mod disponibilidad;
pub mod dto;
pub mod empleado;
pub mod externos;
pub mod memoria;
pub mod puertos;
pub mod reserva;
pub mod sala;
pub mod slot;
pub mod texto;
pub mod tiempo;
