//! Construccion verificada de texto: digitos decimales, relleno con ceros
//! y alineado en columnas, sin pasar por el formateador de std.

use vstd::prelude::*;
use vstd::string::*;

verus! {

pub open spec fn digito_char(d: int) -> char {
    if d == 0 {
        '0'
    } else if d == 1 {
        '1'
    } else if d == 2 {
        '2'
    } else if d == 3 {
        '3'
    } else if d == 4 {
        '4'
    } else if d == 5 {
        '5'
    } else if d == 6 {
        '6'
    } else if d == 7 {
        '7'
    } else if d == 8 {
        '8'
    } else {
        '9'
    }
}

/// Cifras decimales de un numero, de mas a menos significativa.
pub open spec fn digitos(n: nat) -> Seq<char>
    decreases n,
{
    if n < 10 {
        seq![digito_char(n as int)]
    } else {
        digitos(n / 10).push(digito_char((n % 10) as int))
    }
}

pub open spec fn repetido(c: char, n: int) -> Seq<char> {
    if n <= 0 {
        Seq::empty()
    } else {
        Seq::new(n as nat, |i: int| c)
    }
}

/// Numero con ceros a la izquierda hasta un ancho minimo.
pub open spec fn con_ceros(n: nat, ancho: int) -> Seq<char> {
    repetido('0', ancho - digitos(n).len()) + digitos(n)
}

/// Numero con signo, como lo escribe un ancho minimo de campo: el signo
/// cuenta dentro del ancho.
pub open spec fn con_signo(v: int, ancho: int) -> Seq<char> {
    if v >= 0 {
        con_ceros(v as nat, ancho)
    } else {
        seq!['-'] + con_ceros((-v) as nat, ancho - 1)
    }
}

/// Texto alineado a la izquierda en un campo de un ancho minimo.
pub open spec fn alineado_izq(s: Seq<char>, ancho: int) -> Seq<char> {
    s + repetido(' ', ancho - s.len())
}

/// Texto centrado en un campo de un ancho minimo; si sobra un espacio
/// impar queda a la derecha.
pub open spec fn centrado(s: Seq<char>, ancho: int) -> Seq<char> {
    if s.len() >= ancho {
        s
    } else {
        let hueco = ancho - s.len();
        repetido(' ', hueco / 2) + s + repetido(' ', hueco - hueco / 2)
    }
}

/// Los caracteres con la propiedad White_Space de Unicode, los mismos
/// que reconoce el recorte de espacios de std.
pub open spec fn es_espacio(c: char) -> bool {
    let u = c as u32;
    u == 9 || u == 10 || u == 11 || u == 12 || u == 13 || u == 32 || u == 0x85 || u == 0xA0 || u
        == 0x1680 || (0x2000 <= u && u <= 0x200A) || u == 0x2028 || u == 0x2029 || u == 0x202F || u
        == 0x205F || u == 0x3000
}

/// Un texto es blanco si no tiene ningun caracter que no sea espacio.
pub open spec fn es_blanca(s: Seq<char>) -> bool {
    forall|i: int| 0 <= i < s.len() ==> es_espacio(#[trigger] s[i])
}

fn es_espacio_exec(c: char) -> (b: bool)
    ensures
        b == es_espacio(c),
{
    let u = c as u32;
    u == 9 || u == 10 || u == 11 || u == 12 || u == 13 || u == 32 || u == 0x85 || u == 0xA0 || u
        == 0x1680 || (0x2000 <= u && u <= 0x200A) || u == 0x2028 || u == 0x2029 || u == 0x202F || u
        == 0x205F || u == 0x3000
}

/// Compara dos textos caracter a caracter.
pub fn textos_iguales(a: &str, b: &str) -> (r: bool)
    ensures
        r == (a@ == b@),
{
    let na = a.unicode_len();
    let nb = b.unicode_len();
    if na != nb {
        return false;
    }
    let mut i: usize = 0;
    while i < na
        invariant
            i <= na,
            na == a@.len(),
            na == b@.len(),
            forall|j: int| 0 <= j < i ==> a@[j] == b@[j],
        decreases na - i,
    {
        if a.get_char(i) != b.get_char(i) {
            return false;
        }
        i = i + 1;
    }
    proof {
        assert(a@ =~= b@);
    }
    true
}

/// Comprueba si un texto queda vacio al recortarle los espacios.
pub fn es_texto_blanco(s: &str) -> (b: bool)
    ensures
        b == es_blanca(s@),
{
    let n = s.unicode_len();
    let mut i: usize = 0;
    while i < n
        invariant
            i <= n,
            n == s@.len(),
            forall|j: int| 0 <= j < i ==> es_espacio(#[trigger] s@[j]),
        decreases n - i,
    {
        if !es_espacio_exec(s.get_char(i)) {
            return false;
        }
        i = i + 1;
    }
    true
}

/// Anade la cifra `d` al final del texto.
pub fn agrega_digito(s: &mut String, d: u64)
    requires
        d < 10,
    ensures
        final(s)@ == old(s)@.push(digito_char(d as int)),
{
    if d == 0 {
        s.append("0");
        proof {
            reveal_strlit("0");
            assert(final(s)@ =~= old(s)@.push('0'));
        }
    } else if d == 1 {
        s.append("1");
        proof {
            reveal_strlit("1");
            assert(final(s)@ =~= old(s)@.push('1'));
        }
    } else if d == 2 {
        s.append("2");
        proof {
            reveal_strlit("2");
            assert(final(s)@ =~= old(s)@.push('2'));
        }
    } else if d == 3 {
        s.append("3");
        proof {
            reveal_strlit("3");
            assert(final(s)@ =~= old(s)@.push('3'));
        }
    } else if d == 4 {
        s.append("4");
        proof {
            reveal_strlit("4");
            assert(final(s)@ =~= old(s)@.push('4'));
        }
    } else if d == 5 {
        s.append("5");
        proof {
            reveal_strlit("5");
            assert(final(s)@ =~= old(s)@.push('5'));
        }
    } else if d == 6 {
        s.append("6");
        proof {
            reveal_strlit("6");
            assert(final(s)@ =~= old(s)@.push('6'));
        }
    } else if d == 7 {
        s.append("7");
        proof {
            reveal_strlit("7");
            assert(final(s)@ =~= old(s)@.push('7'));
        }
    } else if d == 8 {
        s.append("8");
        proof {
            reveal_strlit("8");
            assert(final(s)@ =~= old(s)@.push('8'));
        }
    } else {
        s.append("9");
        proof {
            reveal_strlit("9");
            assert(final(s)@ =~= old(s)@.push('9'));
        }
    }
}

/// Anade las cifras decimales de `n` al final del texto.
pub fn agrega_digitos(s: &mut String, n: u64)
    ensures
        final(s)@ == old(s)@ + digitos(n as nat),
    decreases n,
{
    if n < 10 {
        agrega_digito(s, n);
        assert(final(s)@ =~= old(s)@ + digitos(n as nat));
    } else {
        agrega_digitos(s, n / 10);
        agrega_digito(s, n % 10);
        assert(final(s)@ =~= old(s)@ + digitos(n as nat));
    }
}

/// Las cifras de un numero menor que `10^k` no pasan de `k`.
proof fn lemma_digitos_cota(n: nat, k: nat)
    requires
        1 <= k,
        n < vstd::arithmetic::power::pow(10, k),
    ensures
        digitos(n).len() <= k,
    decreases n,
{
    reveal(vstd::arithmetic::power::pow);
    if n < 10 {
    } else {
        assert(vstd::arithmetic::power::pow(10, k) == 10 * vstd::arithmetic::power::pow(
            10,
            (k - 1) as nat,
        ));
        if k == 1 {
            assert(vstd::arithmetic::power::pow(10, 0) == 1);
            assert(false);
        }
        vstd::arithmetic::div_mod::lemma_multiply_divide_lt(
            n as int,
            vstd::arithmetic::power::pow(10, (k - 1) as nat) as int,
            10,
        );
        lemma_digitos_cota(n / 10, (k - 1) as nat);
    }
}

/// Cuantas cifras decimales tiene `n`.
pub fn cuenta_digitos(n: u64) -> (c: usize)
    ensures
        c == digitos(n as nat).len(),
        1 <= c <= 20,
    decreases n,
{
    proof {
        assert(vstd::arithmetic::power::pow(10, 20) == 100000000000000000000) by {
            reveal_with_fuel(vstd::arithmetic::power::pow, 21);
        };
        lemma_digitos_cota(n as nat, 20);
    }
    if n < 10 {
        1
    } else {
        let c = cuenta_digitos(n / 10);
        assert(digitos(n as nat).len() == digitos((n / 10) as nat).len() + 1);
        c + 1
    }
}

/// Anade `n` copias del caracter `c`, dado como literal de una letra.
fn agrega_repetido(s: &mut String, letra: &str, n: usize)
    requires
        letra@.len() == 1,
    ensures
        final(s)@ == old(s)@ + repetido(letra@[0], n as int),
{
    let mut i: usize = 0;
    while i < n
        invariant
            i <= n,
            letra@.len() == 1,
            s@ == old(s)@ + repetido(letra@[0], i as int),
        decreases n - i,
    {
        s.append(letra);
        i = i + 1;
        assert(s@ =~= old(s)@ + repetido(letra@[0], i as int));
    }
}

/// Anade `n` espacios.
pub fn agrega_espacios(s: &mut String, n: usize)
    ensures
        final(s)@ == old(s)@ + repetido(' ', n as int),
{
    proof {
        reveal_strlit(" ");
    }
    agrega_repetido(s, " ", n);
}

/// Anade `n` guiones.
pub fn agrega_guiones(s: &mut String, n: usize)
    ensures
        final(s)@ == old(s)@ + repetido('-', n as int),
{
    proof {
        reveal_strlit("-");
    }
    agrega_repetido(s, "-", n);
}

/// Anade `n` con ceros a la izquierda hasta el ancho pedido.
pub fn agrega_con_ceros(s: &mut String, n: u64, ancho: usize)
    requires
        ancho <= 40,
    ensures
        final(s)@ == old(s)@ + con_ceros(n as nat, ancho as int),
{
    let c = cuenta_digitos(n);
    proof {
        reveal_strlit("0");
    }
    if c < ancho {
        agrega_repetido(s, "0", ancho - c);
    }
    agrega_digitos(s, n);
    assert(final(s)@ =~= old(s)@ + con_ceros(n as nat, ancho as int));
}

/// Anade `v` con signo y ceros a la izquierda hasta el ancho pedido.
pub fn agrega_con_signo(s: &mut String, v: i64, ancho: usize)
    requires
        v > i64::MIN,
        1 <= ancho <= 40,
    ensures
        final(s)@ == old(s)@ + con_signo(v as int, ancho as int),
{
    if v >= 0 {
        agrega_con_ceros(s, v as u64, ancho);
    } else {
        s.append("-");
        proof {
            reveal_strlit("-");
        }
        agrega_con_ceros(s, (-v) as u64, ancho - 1);
        assert(final(s)@ =~= old(s)@ + con_signo(v as int, ancho as int));
    }
}

/// Anade un texto alineado a la izquierda en un campo del ancho pedido.
pub fn agrega_alineado_izq(s: &mut String, texto: &str, ancho: usize)
    ensures
        final(s)@ == old(s)@ + alineado_izq(texto@, ancho as int),
{
    s.append(texto);
    let largo = texto.unicode_len();
    if largo < ancho {
        agrega_espacios(s, ancho - largo);
    }
    assert(final(s)@ =~= old(s)@ + alineado_izq(texto@, ancho as int));
}

/// Anade un texto centrado en un campo del ancho pedido.
pub fn agrega_centrado(s: &mut String, texto: &str, ancho: usize)
    ensures
        final(s)@ == old(s)@ + centrado(texto@, ancho as int),
{
    let largo = texto.unicode_len();
    if largo >= ancho {
        s.append(texto);
        assert(final(s)@ =~= old(s)@ + centrado(texto@, ancho as int));
    } else {
        let hueco = ancho - largo;
        agrega_espacios(s, hueco / 2);
        s.append(texto);
        agrega_espacios(s, hueco - hueco / 2);
        assert(final(s)@ =~= old(s)@ + centrado(texto@, ancho as int));
    }
}

} // verus!
