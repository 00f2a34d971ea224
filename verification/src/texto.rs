//! Texto: recorrer caracteres y construir cadenas.

use vstd::prelude::*;

verus! {

broadcast use vstd::string::group_string_axioms;

/// Los caracteres de `s`, en orden.
pub fn caracteres(s: &str) -> (r: Vec<char>)
    ensures
        r@ == s@,
{
    let mut out: Vec<char> = Vec::new();
    for c in it: s.chars()
        invariant
            out@ == it.seq().take(it.index() as int),
            it.seq() == s@,
    {
        out.push(c);
        assert(out@ =~= it.seq().take(it.index() + 1));
    }
    assert(out@ =~= s@);
    out
}

/// Añade un carácter al final de `s` (`String::push`).
#[verifier::external_body]
pub fn empujar(s: &mut String, c: char)
    ensures
        final(s)@ == old(s)@.push(c),
{
    s.push(c);
}

/// Una cadena con los caracteres de `v`.
pub fn de_caracteres(v: &Vec<char>) -> (r: String)
    ensures
        r@ == v@,
{
    let mut s = String::new();
    let mut i: usize = 0;
    while i < v.len()
        invariant
            i <= v@.len(),
            s@ == v@.take(i as int),
        decreases v@.len() - i,
    {
        empujar(&mut s, v[i]);
        i = i + 1;
        assert(s@ =~= v@.take(i as int));
    }
    assert(v@.take(v@.len() as int) =~= v@);
    s
}


/// Las cifras decimales de un natural, como las escribe `Display`.
pub open spec fn decimal(v: nat) -> Seq<char>
    decreases v,
{
    if v < 10 {
        seq![(v + 48) as char]
    } else {
        decimal(v / 10).push(((v % 10) + 48) as char)
    }
}

/// Añade los caracteres de `s`.
pub fn anadir(out: &mut Vec<char>, s: &str)
    ensures
        final(out)@ == old(out)@ + s@,
{
    let cs = caracteres(s);
    let ghost antes = out@;
    let mut i: usize = 0;
    while i < cs.len()
        invariant
            i <= cs@.len(),
            cs@ == s@,
            out@ == antes + cs@.take(i as int),
        decreases cs@.len() - i,
    {
        out.push(cs[i]);
        i = i + 1;
        assert(out@ =~= antes + cs@.take(i as int));
    }
    assert(cs@.take(cs@.len() as int) =~= cs@);
}

/// La cifra decimal `d`.
fn cifra(d: u64) -> (r: char)
    requires
        d < 10,
    ensures
        r == (d + 48) as char,
{
    if d == 0 { '0' } else if d == 1 { '1' } else if d == 2 { '2' } else if d == 3 { '3' } else if d == 4 {
        '4'
    } else if d == 5 { '5' } else if d == 6 { '6' } else if d == 7 { '7' } else if d == 8 { '8' } else { '9' }
}

/// Añade a `out` las cifras decimales de `v`.
pub fn empujar_decimal(out: &mut Vec<char>, v: u64)
    ensures
        final(out)@ == old(out)@ + decimal(v as nat),
    decreases v,
{
    if v < 10 {
        out.push(cifra(v));
        assert(out@ =~= old(out)@ + decimal(v as nat));
    } else {
        empujar_decimal(out, v / 10);
        out.push(cifra(v % 10));
        assert(out@ =~= old(out)@ + decimal(v as nat));
    }
}


// ---------------------------------------------------------------------------
// Partir texto
// ---------------------------------------------------------------------------

/// ¿Es espacio en blanco Unicode (propiedad `White_Space`)? Los controles
/// de tabulación a retorno de carro, el espacio, el siguiente renglón, el
/// espacio duro, el espacio ogam, los espacios tipográficos, los separadores
/// de línea y de párrafo, el espacio duro estrecho, el matemático y el
/// ideográfico.
pub open spec fn blanco(c: char) -> bool {
    let x = c as u32;
    ||| 0x09 <= x <= 0x0D
    ||| x == 0x20
    ||| x == 0x85
    ||| x == 0xA0
    ||| x == 0x1680
    ||| 0x2000 <= x <= 0x200A
    ||| x == 0x2028
    ||| x == 0x2029
    ||| x == 0x202F
    ||| x == 0x205F
    ||| x == 0x3000
}

/// ¿Es espacio en blanco Unicode?
pub fn es_blanco(c: char) -> (r: bool)
    ensures
        r == blanco(c),
{
    let x = c as u32;
    (0x09 <= x && x <= 0x0D) || x == 0x20 || x == 0x85 || x == 0xA0 || x == 0x1680 || (0x2000 <= x
        && x <= 0x200A) || x == 0x2028 || x == 0x2029 || x == 0x202F || x == 0x205F || x == 0x3000
}

/// Los trozos de `t` separados por `sep`, como `str::split`: siempre hay al
/// menos uno, y dos separadores seguidos dejan un trozo vacío.
pub open spec fn partir(t: Seq<char>, sep: char) -> Seq<Seq<char>>
    decreases t.len(),
{
    if t.len() == 0 {
        seq![Seq::empty()]
    } else {
        let p = partir(t.drop_last(), sep);
        if t.last() == sep {
            p.push(Seq::empty())
        } else {
            p.update(p.len() - 1, p.last().push(t.last()))
        }
    }
}

pub proof fn lema_partir_no_vacio(t: Seq<char>, sep: char)
    ensures
        partir(t, sep).len() >= 1,
    decreases t.len(),
{
    if t.len() > 0 {
        lema_partir_no_vacio(t.drop_last(), sep);
    }
}

/// Las vistas de una lista de listas de caracteres.
pub open spec fn vistas_c(v: Seq<Vec<char>>) -> Seq<Seq<char>> {
    Seq::new(v.len(), |i: int| v[i]@)
}

/// Parte `t` por `sep`.
pub fn partir_exec(t: &Vec<char>, sep: char) -> (r: Vec<Vec<char>>)
    ensures
        vistas_c(r@) == partir(t@, sep),
{
    let mut segs: Vec<Vec<char>> = Vec::new();
    segs.push(Vec::new());
    let mut i: usize = 0;
    assert(t@.take(0) =~= Seq::<char>::empty());
    assert(vistas_c(segs@) =~= partir(t@.take(0), sep));
    while i < t.len()
        invariant
            i <= t@.len(),
            vistas_c(segs@) == partir(t@.take(i as int), sep),
            segs@.len() >= 1,
        decreases t@.len() - i,
    {
        let c = t[i];
        proof {
            assert(t@.take(i + 1).drop_last() =~= t@.take(i as int));
            assert(t@.take(i + 1).last() == c);
        }
        if c == sep {
            segs.push(Vec::new());
            assert(vistas_c(segs@) =~= partir(t@.take(i + 1), sep));
        } else {
            let ghost antes = segs@;
            let mut ultimo = segs.pop().unwrap();
            ultimo.push(c);
            segs.push(ultimo);
            assert(vistas_c(segs@) =~= partir(t@.take(i + 1), sep));
        }
        i = i + 1;
    }
    assert(t@.take(t@.len() as int) =~= t@);
    segs
}

/// Sin los blancos del principio.
pub open spec fn sin_blancos_izq(s: Seq<char>) -> Seq<char>
    decreases s.len(),
{
    if s.len() > 0 && blanco(s[0]) {
        sin_blancos_izq(s.drop_first())
    } else {
        s
    }
}

/// Sin los blancos del final.
pub open spec fn sin_blancos_der(s: Seq<char>) -> Seq<char>
    decreases s.len(),
{
    if s.len() > 0 && blanco(s.last()) {
        sin_blancos_der(s.drop_last())
    } else {
        s
    }
}

/// Sin blancos a los lados, como `str::trim`.
pub open spec fn sin_blancos(s: Seq<char>) -> Seq<char> {
    sin_blancos_der(sin_blancos_izq(s))
}

proof fn lema_sin_blancos_izq(s: Seq<char>, i: int)
    requires
        0 <= i <= s.len(),
        forall|k: int| 0 <= k < i ==> blanco(s[k]),
        i == s.len() || !blanco(s[i]),
    ensures
        sin_blancos_izq(s) == s.skip(i),
    decreases i,
{
    if i > 0 {
        assert(s.drop_first().skip(i - 1) =~= s.skip(i));
        lema_sin_blancos_izq(s.drop_first(), i - 1);
    } else {
        assert(s.skip(0) =~= s);
    }
}

proof fn lema_sin_blancos_der(s: Seq<char>, j: int)
    requires
        0 <= j <= s.len(),
        forall|k: int| j <= k < s.len() ==> blanco(s[k]),
        j == 0 || !blanco(s[j - 1]),
    ensures
        sin_blancos_der(s) == s.take(j),
    decreases s.len() - j,
{
    if j < s.len() {
        assert(s.drop_last().take(j) =~= s.take(j));
        lema_sin_blancos_der(s.drop_last(), j);
    } else {
        assert(s.take(j) =~= s);
    }
}

/// Quita los blancos de los lados.
pub fn recortar_blancos(s: &Vec<char>) -> (r: Vec<char>)
    ensures
        r@ == sin_blancos(s@),
{
    let n = s.len();
    let mut i: usize = 0;
    while i < n && es_blanco(s[i])
        invariant
            n == s@.len(),
            i <= n,
            forall|k: int| 0 <= k < i ==> blanco(s@[k]),
        decreases n - i,
    {
        i = i + 1;
    }
    proof {
        lema_sin_blancos_izq(s@, i as int);
    }
    let ghost izq = s@.skip(i as int);
    let mut j: usize = n;
    while j > i && es_blanco(s[j - 1])
        invariant
            n == s@.len(),
            i <= j <= n,
            forall|k: int| j <= k < n ==> blanco(s@[k]),
        decreases j,
    {
        j = j - 1;
    }
    proof {
        assert forall|k: int| j - i <= k < izq.len() implies blanco(izq[k]) by {
            assert(izq[k] == s@[k + i]);
        }
        if j > i {
            assert(izq[j - i - 1] == s@[j - 1]);
        }
        lema_sin_blancos_der(izq, j - i);
    }
    let mut out: Vec<char> = Vec::new();
    let mut k: usize = i;
    while k < j
        invariant
            i <= k <= j,
            j <= n,
            n == s@.len(),
            out@ == s@.subrange(i as int, k as int),
        decreases j - k,
    {
        out.push(s[k]);
        k = k + 1;
        assert(out@ =~= s@.subrange(i as int, k as int));
    }
    assert(out@ =~= izq.take(j - i));
    out
}

/// Las fichas de `s`: los tramos máximos sin blancos, como
/// `str::split_whitespace`.
pub open spec fn fichas(s: Seq<char>) -> Seq<Seq<char>>
    decreases s.len(),
{
    if s.len() == 0 {
        Seq::empty()
    } else {
        let f = fichas(s.drop_last());
        let c = s.last();
        if blanco(c) {
            f
        } else if s.len() >= 2 && !blanco(s[s.len() - 2]) && f.len() > 0 {
            f.update(f.len() - 1, f.last().push(c))
        } else {
            f.push(seq![c])
        }
    }
}

/// Parte `s` en fichas.
pub fn fichas_exec(s: &Vec<char>) -> (r: Vec<Vec<char>>)
    ensures
        vistas_c(r@) == fichas(s@),
{
    let mut out: Vec<Vec<char>> = Vec::new();
    let mut i: usize = 0;
    let mut previo_blanco = true;
    assert(s@.take(0) =~= Seq::<char>::empty());
    assert(vistas_c(out@) =~= Seq::<Seq<char>>::empty());
    while i < s.len()
        invariant
            i <= s@.len(),
            vistas_c(out@) == fichas(s@.take(i as int)),
            previo_blanco == (i == 0 || blanco(s@[i - 1])),
            !previo_blanco ==> out@.len() > 0,
        decreases s@.len() - i,
    {
        let c = s[i];
        let b = es_blanco(c);
        proof {
            assert(s@.take(i + 1).drop_last() =~= s@.take(i as int));
            assert(s@.take(i + 1).last() == c);
            if i >= 1 {
                assert(s@.take(i + 1)[i - 1] == s@[i - 1]);
            }
        }
        if b {
        } else if !previo_blanco {
            let mut ultima = out.pop().unwrap();
            ultima.push(c);
            out.push(ultima);
            assert(vistas_c(out@) =~= fichas(s@.take(i + 1)));
        } else {
            let mut nueva: Vec<char> = Vec::new();
            nueva.push(c);
            out.push(nueva);
            assert(vistas_c(out@) =~= fichas(s@.take(i + 1)));
        }
        previo_blanco = b;
        i = i + 1;
    }
    assert(s@.take(s@.len() as int) =~= s@);
    out
}

// ---------------------------------------------------------------------------
// Enteros
// ---------------------------------------------------------------------------

pub open spec fn es_digito(c: char) -> bool {
    '0' <= c && c <= '9'
}

/// El valor decimal de una tira de dígitos.
pub open spec fn valor_decimal(s: Seq<char>) -> nat
    decreases s.len(),
{
    if s.len() == 0 {
        0
    } else {
        valor_decimal(s.drop_last()) * 10 + ((s.last() as u32) - ('0' as u32)) as nat
    }
}

pub open spec fn todo_digitos(s: Seq<char>) -> bool {
    forall|i: int| 0 <= i < s.len() ==> es_digito(s[i])
}

/// El entero de 64 bits con signo que escribe `s`, como `i64::from_str`: un
/// signo opcional y al menos un dígito, sin salirse del rango.
pub open spec fn entero_de(s: Seq<char>) -> Option<i64> {
    if s.len() == 0 {
        None
    } else if s[0] == '-' || s[0] == '+' {
        let d = s.drop_first();
        if d.len() > 0 && todo_digitos(d) {
            if s[0] == '-' && valor_decimal(d) <= 0x8000_0000_0000_0000 {
                Some((-(valor_decimal(d) as int)) as i64)
            } else if s[0] == '+' && valor_decimal(d) <= i64::MAX {
                Some(valor_decimal(d) as i64)
            } else {
                None
            }
        } else {
            None
        }
    } else if todo_digitos(s) && valor_decimal(s) <= i64::MAX {
        Some(valor_decimal(s) as i64)
    } else {
        None
    }
}

proof fn lema_valor_crece(s: Seq<char>, k: int)
    requires
        0 <= k <= s.len(),
        todo_digitos(s),
    ensures
        valor_decimal(s.take(k)) <= valor_decimal(s),
    decreases s.len() - k,
{
    if k < s.len() {
        lema_valor_crece(s, k + 1);
        assert(s.take(k + 1).drop_last() =~= s.take(k));
    } else {
        assert(s.take(k) =~= s);
    }
}

/// El valor de los dígitos desde `desde`, o `None` si hay algo que no es un
/// dígito o el valor pasa de `tope`.
fn leer_digitos(s: &Vec<char>, desde: usize, tope: u64) -> (r: Option<u64>)
    requires
        desde <= s@.len(),
    ensures
        r is Some <==> (todo_digitos(s@.skip(desde as int)) && valor_decimal(s@.skip(desde as int)) <= tope),
        r matches Some(v) ==> v == valor_decimal(s@.skip(desde as int)),
{
    let ghost d = s@.skip(desde as int);
    let mut acc: u64 = 0;
    let mut i: usize = desde;
    let mut excedido = false;
    assert(d.take(0) =~= Seq::<char>::empty());
    while i < s.len()
        invariant
            desde <= i <= s@.len(),
            d == s@.skip(desde as int),
            todo_digitos(d.take(i - desde)),
            !excedido ==> acc == valor_decimal(d.take(i - desde)) && acc <= tope,
            excedido ==> valor_decimal(d.take(i - desde)) > tope,
        decreases s@.len() - i,
    {
        let c = s[i];
        if !('0' <= c && c <= '9') {
            assert(d[i - desde] == c);
            return None;
        }
        let dig = (c as u32 - '0' as u32) as u64;
        proof {
            assert(d.take(i - desde + 1).drop_last() =~= d.take(i - desde));
            assert(d.take(i - desde + 1).last() == c);
        }
        if !excedido {
            if dig > tope || acc > (tope - dig) / 10 {
                excedido = true;
                proof {
                    if dig <= tope {
                        assert(acc * 10 + dig > tope) by (nonlinear_arith)
                            requires
                                acc > (tope - dig) / 10,
                                dig <= tope,
                        ;
                    }
                }
            } else {
                proof {
                    assert(acc * 10 + dig <= tope) by (nonlinear_arith)
                        requires
                            acc <= (tope - dig) / 10,
                            dig <= tope,
                    ;
                }
                acc = acc * 10 + dig;
            }
        } else {
            assert(valor_decimal(d.take(i - desde + 1)) >= valor_decimal(d.take(i - desde)) * 10);
        }
        i = i + 1;
    }
    assert(d.take(i - desde) =~= d);
    if excedido {
        None
    } else {
        Some(acc)
    }
}

/// Lee un entero de 64 bits con signo.
pub fn leer_entero(s: &Vec<char>) -> (r: Option<i64>)
    ensures
        r == entero_de(s@),
{
    if s.len() == 0 {
        return None;
    }
    let c0 = s[0];
    if c0 == '-' || c0 == '+' {
        assert(s@.skip(1) =~= s@.drop_first());
        if s.len() == 1 {
            return None;
        }
        if c0 == '-' {
            match leer_digitos(s, 1, 0x8000_0000_0000_0000u64) {
                Some(v) => {
                    if v == 0x8000_0000_0000_0000u64 {
                        Some(i64::MIN)
                    } else {
                        Some(-(v as i64))
                    }
                },
                None => None,
            }
        } else {
            match leer_digitos(s, 1, i64::MAX as u64) {
                Some(v) => Some(v as i64),
                None => None,
            }
        }
    } else {
        assert(s@.skip(0) =~= s@);
        match leer_digitos(s, 0, i64::MAX as u64) {
            Some(v) => Some(v as i64),
            None => None,
        }
    }
}

} // verus!
