//! Wavefront OBJ: la lectura.
//!
//! El formato es de este proyecto tanto como de cualquiera: líneas, fichas,
//! índices desde 1 (o negativos, relativos al final) y caras que se triangulan
//! en abanico. Los números reales los convierte quien llama, ficha a ficha, en
//! el orden de [`fichas_reales`]; todo lo demás se decide aquí.

use vstd::prelude::*;

use crate::interop::{defecto_de, InteropError, ObjOptions, TriangleSoup};
use crate::texto::{
    anadir, decimal, empujar_decimal, de_caracteres, caracteres, fichas, fichas_exec, leer_entero, partir, partir_exec, entero_de,
    recortar_blancos, sin_blancos, vistas_c,
};
use crate::vector::{f64_neg, DVec2, DVec3};

verus! {

/// Qué tiene mal una línea.
#[derive(Clone, Copy, PartialEq, Eq, Structural, Debug)]
pub enum Malformacion {
    /// Falta el componente `x`, `y`, `z`, `u` o `v`.
    FaltaComponente(char),
    /// Un número real que no se pudo leer.
    NumeroIlegible,
    /// Una cara con menos de tres vértices.
    CaraCorta(usize),
    /// Un índice que no es un entero.
    IndiceIlegible,
    /// Un índice fuera de rango: el escrito y cuántos elementos había.
    IndiceFuera { raw: i64, total: usize },
}

/// El estado de la lectura: la malla que se va formando (nombre, posiciones,
/// normales, UV, índices), los datos indexados del archivo (posiciones,
/// normales y UV crudas), las ternas ya vistas y la siguiente ficha real.
pub type Vista = (
    (Seq<char>, Seq<DVec3>, Seq<DVec3>, Seq<DVec2>, Seq<u32>),
    (Seq<DVec3>, Seq<DVec3>, Seq<DVec2>),
    Seq<(u32, u32, u32)>,
    int,
);

pub open spec fn inicial() -> Vista {
    (
        (Seq::empty(), Seq::empty(), Seq::empty(), Seq::empty(), Seq::empty()),
        (Seq::empty(), Seq::empty(), Seq::empty()),
        Seq::empty(),
        0,
    )
}

pub open spec fn malformado(n: int, d: Malformacion) -> InteropError {
    InteropError::Malformed { line: n as usize, detail: d }
}

/// La ficha real número `cur`, ya convertida.
pub open spec fn real_en(reales: Seq<Option<u64>>, cur: int) -> Option<u64> {
    if 0 <= cur < reales.len() {
        reales[cur]
    } else {
        None
    }
}

/// Lee `k` componentes reales de las fichas `1..=k`. Un componente que falta
/// o que no se puede leer es un error de la línea `n`.
pub open spec fn componentes(
    toks: Seq<Seq<char>>,
    nombres: Seq<char>,
    cur: int,
    reales: Seq<Option<u64>>,
    n: int,
) -> Result<Seq<u64>, InteropError>
    decreases nombres.len(),
{
    if nombres.len() == 0 {
        Ok(Seq::empty())
    } else {
        match componentes(toks, nombres.drop_last(), cur, reales, n) {
            Err(e) => Err(e),
            Ok(vs) => {
                let k = nombres.len();
                if toks.len() <= k {
                    Err(malformado(n, Malformacion::FaltaComponente(nombres.last())))
                } else {
                    match real_en(reales, cur + k - 1) {
                        None => Err(malformado(n, Malformacion::NumeroIlegible)),
                        Some(b) => Ok(vs.push(b)),
                    }
                }
            },
        }
    }
}

/// Y arriba → Z arriba sobre los bits: `(x, y, z) → (x, −z, y)`.
pub open spec fn a_z_arriba(v: DVec3) -> DVec3 {
    DVec3 { x: v.x, y: f64_neg(v.z), z: v.y }
}

/// Las fichas unidas con un espacio.
pub open spec fn unir(t: Seq<Seq<char>>) -> Seq<char>
    decreases t.len(),
{
    if t.len() == 0 {
        Seq::empty()
    } else if t.len() == 1 {
        t[0]
    } else {
        unir(t.drop_last()) + seq![' '] + t.last()
    }
}

/// Lee un índice: ausente o vacío es `u32::MAX`; negativo es relativo al final;
/// tiene que caer dentro de `total`.
pub open spec fn indice(p: Option<Seq<char>>, total: int, n: int) -> Result<u32, InteropError> {
    match p {
        Some(s) => if s.len() > 0 {
            match entero_de(s) {
                None => Err(malformado(n, Malformacion::IndiceIlegible)),
                Some(raw) => {
                    let i = if raw < 0 {
                        total + raw
                    } else {
                        raw - 1
                    };
                    if i < 0 || i >= total {
                        Err(malformado(n, Malformacion::IndiceFuera { raw, total: total as usize }))
                    } else {
                        Ok(i as u32)
                    }
                },
            }
        } else {
            Ok(u32::MAX)
        },
        None => Ok(u32::MAX),
    }
}

pub open spec fn parte(ps: Seq<Seq<char>>, i: int) -> Option<Seq<char>> {
    if i < ps.len() {
        Some(ps[i])
    } else {
        None
    }
}

pub open spec fn max1(x: int) -> int {
    if x > 1 {
        x
    } else {
        1
    }
}

/// Posición de la primera aparición de `t` en `s`, o `s.len()`.
pub open spec fn posicion_terna(s: Seq<(u32, u32, u32)>, t: (u32, u32, u32)) -> int
    decreases s.len(),
{
    if s.len() == 0 {
        0
    } else if s[0] == t {
        0
    } else {
        1 + posicion_terna(s.drop_first(), t)
    }
}

/// Un vértice de cara: resuelve sus índices y, si la terna es nueva, añade su
/// vértice a la malla. Devuelve el índice del vértice en la malla. `None`: la
/// ficha no dice su posición (`/2/3`, por ejemplo), y no hay vértice al que
/// referirse.
pub open spec fn vertice(v: Vista, tok: Seq<char>, n: int) -> Option<Result<(Vista, u32), InteropError>> {
    let ((nombre, pos, nor, uv, idx), (crudas, nidx, uvidx), ternas, cur) = v;
    let ps = partir(tok, '/');
    match indice(parte(ps, 0), crudas.len() as int, n) {
        Err(e) => Some(Err(e)),
        Ok(ip) => match indice(parte(ps, 1), max1(uvidx.len() as int), n) {
            Err(e) => Some(Err(e)),
            Ok(it) => match indice(parte(ps, 2), max1(nidx.len() as int), n) {
                Err(e) => Some(Err(e)),
                Ok(inn) => {
                    let t = (ip, it, inn);
                    if ps[0].len() == 0 {
                        None
                    } else if ternas.contains(t) {
                        Some(Ok((v, posicion_terna(ternas, t) as u32)))
                    } else {
                        let pos2 = pos.push(crudas[ip as int]);
                        let nor2 = if inn != u32::MAX && (inn as int) < nidx.len() {
                            nor.push(nidx[inn as int])
                        } else {
                            nor
                        };
                        let uv2 = if it != u32::MAX && (it as int) < uvidx.len() {
                            uv.push(uvidx[it as int])
                        } else {
                            uv
                        };
                        Some(
                            Ok(
                                (
                                    ((nombre, pos2, nor2, uv2, idx), (crudas, nidx, uvidx), ternas.push(t), cur),
                                    ternas.len() as u32,
                                ),
                            ),
                        )
                    }
                },
            },
        },
    }
}

/// Los vértices de una cara, en orden.
pub open spec fn vertices(v: Vista, toks: Seq<Seq<char>>, n: int) -> Option<
    Result<(Vista, Seq<u32>), InteropError>,
>
    decreases toks.len(),
{
    if toks.len() == 0 {
        Some(Ok((v, Seq::empty())))
    } else {
        match vertices(v, toks.drop_last(), n) {
            Some(Ok((v1, is))) => match vertice(v1, toks.last(), n) {
                Some(Ok((v2, i))) => Some(Ok((v2, is.push(i)))),
                Some(Err(e)) => Some(Err(e)),
                None => None,
            },
            otro => otro,
        }
    }
}

/// Los triángulos en abanico de una cara ya indexada, aplanados.
pub open spec fn abanico_plano(is: Seq<u32>, m: int) -> Seq<u32>
    decreases m,
{
    if m <= 1 {
        Seq::empty()
    } else {
        abanico_plano(is, m - 1) + seq![is[0], is[m - 1], is[m]]
    }
}

/// Lo que hace una línea con contenido `toks`, número `n`.
pub open spec fn paso(v: Vista, toks: Seq<Seq<char>>, n: int, reales: Seq<Option<u64>>, y_up: bool) -> Option<
    Result<Vista, InteropError>,
> {
    if toks.len() == 0 {
        Some(Ok(v))
    } else if toks[0] == seq!['f'] {
        let vs = toks.drop_first();
        if vs.len() < 3 {
            Some(Err(malformado(n, Malformacion::CaraCorta(vs.len() as usize))))
        } else {
            match vertices(v, vs, n) {
                Some(Ok((v2, is))) => {
                    let ((nombre2, pos2, nor2, uv2, idx2), c2, t2, cur2) = v2;
                    Some(
                        Ok(
                            (
                                (nombre2, pos2, nor2, uv2, idx2 + abanico_plano(is, is.len() - 1)),
                                c2,
                                t2,
                                cur2,
                            ),
                        ),
                    )
                },
                Some(Err(e)) => Some(Err(e)),
                None => None,
            }
        }
    } else {
        Some(paso_datos(v, toks, n, reales, y_up))
    }
}

/// Lo que hace una línea que no es una cara.
pub open spec fn paso_datos(v: Vista, toks: Seq<Seq<char>>, n: int, reales: Seq<Option<u64>>, y_up: bool) -> Result<
    Vista,
    InteropError,
> {
    let ((nombre, pos, nor, uv, idx), (crudas, nidx, uvidx), ternas, cur) = v;
    let clave = toks[0];
    if clave == seq!['o'] || clave == seq!['g'] {
        if nombre.len() == 0 {
            Ok(((unir(toks.drop_first()), pos, nor, uv, idx), (crudas, nidx, uvidx), ternas, cur))
        } else {
            Ok(v)
        }
    } else if clave == seq!['v'] || clave == seq!['v', 'n'] {
        match componentes(toks, seq!['x', 'y', 'z'], cur, reales, n) {
            Err(e) => Err(e),
            Ok(c) => {
                let p = DVec3 { x: c[0], y: c[1], z: c[2] };
                let p2 = if y_up {
                    a_z_arriba(p)
                } else {
                    p
                };
                if clave == seq!['v'] {
                    Ok(((nombre, pos, nor, uv, idx), (crudas.push(p2), nidx, uvidx), ternas, cur + 3))
                } else {
                    Ok(((nombre, pos, nor, uv, idx), (crudas, nidx.push(p2), uvidx), ternas, cur + 3))
                }
            },
        }
    } else if clave == seq!['v', 't'] {
        match componentes(toks, seq!['u', 'v'], cur, reales, n) {
            Err(e) => Err(e),
            Ok(c) => Ok(
                (
                    (nombre, pos, nor, uv, idx),
                    (crudas, nidx, uvidx.push(DVec2 { x: c[0], y: c[1] })),
                    ternas,
                    cur + 2,
                ),
            ),
        }
    } else {
        Ok(v)
    }
}

/// El contenido de una línea: lo que hay antes de `#`, sin blancos a los lados.
pub open spec fn contenido(l: Seq<char>) -> Seq<char> {
    sin_blancos(partir(l, '#')[0])
}

/// El estado tras las primeras `k` líneas.
pub open spec fn tras_lineas(ls: Seq<Seq<char>>, k: int, reales: Seq<Option<u64>>, y_up: bool) -> Option<
    Result<Vista, InteropError>,
>
    decreases k,
{
    if k <= 0 {
        Some(Ok(inicial()))
    } else {
        match tras_lineas(ls, k - 1, reales, y_up) {
            Some(Ok(v)) => paso(v, fichas(contenido(ls[k - 1])), k, reales, y_up),
            otro => otro,
        }
    }
}

/// La malla final: normales y UV descartadas si no hay una por vértice.
pub open spec fn final_de(v: Vista) -> (Seq<char>, Seq<DVec3>, Seq<DVec3>, Seq<DVec2>, Seq<u32>) {
    let (nombre, pos, nor, uv, idx) = v.0;
    (
        nombre,
        pos,
        if nor.len() != pos.len() {
            Seq::empty()
        } else {
            nor
        },
        if uv.len() != pos.len() {
            Seq::empty()
        } else {
            uv
        },
        idx,
    )
}

/// Las líneas del texto. Partir por `'\n'` basta: un `'\r'` final es un
/// blanco y se recorta con el resto.
pub open spec fn lineas(txt: Seq<char>) -> Seq<Seq<char>> {
    partir(txt, '\n')
}

/// Lo que da la lectura de un texto OBJ: el nombre, las posiciones, normales,
/// UV e índices de la malla, el error de la primera línea que falla, o `None`
/// si una cara llega a un vértice sin posición.
pub open spec fn lectura_obj(txt: Seq<char>, reales: Seq<Option<u64>>, y_up: bool) -> Option<
    Result<(Seq<char>, Seq<DVec3>, Seq<DVec3>, Seq<DVec2>, Seq<u32>), InteropError>,
> {
    let ls = lineas(txt);
    match tras_lineas(ls, ls.len() as int, reales, y_up) {
        None => None,
        Some(Err(e)) => Some(Err(e)),
        Some(Ok(v)) => {
            let m = final_de(v);
            match defecto_de(m.1, m.2, m.3, m.4) {
                Some(d) => Some(Err(InteropError::InvalidMesh(d))),
                None => Some(Ok(m)),
            }
        },
    }
}

/// Las fichas reales de una línea: los componentes de `v`, `vn` (hasta tres)
/// y `vt` (hasta dos), en orden.
pub open spec fn reales_de_linea(toks: Seq<Seq<char>>) -> Seq<Seq<char>> {
    if toks.len() == 0 {
        Seq::empty()
    } else if toks[0] == seq!['v'] || toks[0] == seq!['v', 'n'] {
        toks.subrange(1, if toks.len() < 4 { toks.len() as int } else { 4 })
    } else if toks[0] == seq!['v', 't'] {
        toks.subrange(1, if toks.len() < 3 { toks.len() as int } else { 3 })
    } else {
        Seq::empty()
    }
}

/// Las fichas reales de las primeras `k` líneas, en orden.
pub open spec fn reales_hasta(ls: Seq<Seq<char>>, k: int) -> Seq<Seq<char>>
    decreases k,
{
    if k <= 0 {
        Seq::empty()
    } else {
        reales_hasta(ls, k - 1) + reales_de_linea(fichas(contenido(ls[k - 1])))
    }
}

/// Las vistas de una lista de cadenas.
pub open spec fn vistas_s(v: Seq<String>) -> Seq<Seq<char>> {
    Seq::new(v.len(), |i: int| v[i]@)
}

// ---------------------------------------------------------------------------
// La lectura
// ---------------------------------------------------------------------------

/// El lector: el estado de [`Vista`] en vectores.
struct Lector {
    nombre: Vec<char>,
    pos: Vec<DVec3>,
    nor: Vec<DVec3>,
    uv: Vec<DVec2>,
    idx: Vec<u32>,
    crudas: Vec<DVec3>,
    nidx: Vec<DVec3>,
    uvidx: Vec<DVec2>,
    ternas: Vec<(u32, u32, u32)>,
    cur: usize,
}

impl Lector {
    spec fn vista(&self) -> Vista {
        (
            (self.nombre@, self.pos@, self.nor@, self.uv@, self.idx@),
            (self.crudas@, self.nidx@, self.uvidx@),
            self.ternas@,
            self.cur as int,
        )
    }
}

fn real_exec(reales: &Vec<Option<u64>>, cur: usize) -> (r: Option<u64>)
    ensures
        r == real_en(reales@, cur as int),
{
    if cur < reales.len() {
        reales[cur]
    } else {
        None
    }
}

/// El componente `k` (desde 1) de una línea.
fn componente(
    toks: &Vec<Vec<char>>,
    k: usize,
    nombre: char,
    cur: usize,
    reales: &Vec<Option<u64>>,
    n: usize,
) -> (r: Result<u64, InteropError>)
    requires
        1 <= k <= 3,
        cur + 3 <= usize::MAX,
    ensures
        toks@.len() <= k ==> r == Err::<u64, InteropError>(malformado(n as int, Malformacion::FaltaComponente(nombre))),
        toks@.len() > k ==> match real_en(reales@, cur + k - 1) {
            None => r == Err::<u64, InteropError>(malformado(n as int, Malformacion::NumeroIlegible)),
            Some(b) => r == Ok::<u64, InteropError>(b),
        },
        r is Ok ==> cur + k <= reales@.len(),
{
    if toks.len() <= k {
        return Err(InteropError::Malformed { line: n, detail: Malformacion::FaltaComponente(nombre) });
    }
    match real_exec(reales, cur + k - 1) {
        None => Err(InteropError::Malformed { line: n, detail: Malformacion::NumeroIlegible }),
        Some(b) => Ok(b),
    }
}

fn leer_tres(toks: &Vec<Vec<char>>, cur: usize, reales: &Vec<Option<u64>>, n: usize) -> (r: Result<DVec3, InteropError>)
    requires
        cur + 3 <= usize::MAX,
    ensures
        match componentes(vistas_c(toks@), seq!['x', 'y', 'z'], cur as int, reales@, n as int) {
            Err(e) => r == Err::<DVec3, InteropError>(e),
            Ok(c) => r == Ok::<DVec3, InteropError>(DVec3 { x: c[0], y: c[1], z: c[2] }),
        },
        r is Ok ==> cur + 3 <= reales@.len(),
{
    proof {
        reveal_with_fuel(componentes, 4);
        assert(seq!['x', 'y', 'z'].drop_last() =~= seq!['x', 'y']);
        assert(seq!['x', 'y'].drop_last() =~= seq!['x']);
        assert(seq!['x'].drop_last() =~= Seq::<char>::empty());
    }
    let x = match componente(toks, 1, 'x', cur, reales, n) {
        Ok(b) => b,
        Err(e) => {
            return Err(e);
        },
    };
    let y = match componente(toks, 2, 'y', cur, reales, n) {
        Ok(b) => b,
        Err(e) => {
            return Err(e);
        },
    };
    let z = match componente(toks, 3, 'z', cur, reales, n) {
        Ok(b) => b,
        Err(e) => {
            return Err(e);
        },
    };
    Ok(DVec3 { x, y, z })
}

fn leer_dos(toks: &Vec<Vec<char>>, cur: usize, reales: &Vec<Option<u64>>, n: usize) -> (r: Result<DVec2, InteropError>)
    requires
        cur + 3 <= usize::MAX,
    ensures
        match componentes(vistas_c(toks@), seq!['u', 'v'], cur as int, reales@, n as int) {
            Err(e) => r == Err::<DVec2, InteropError>(e),
            Ok(c) => r == Ok::<DVec2, InteropError>(DVec2 { x: c[0], y: c[1] }),
        },
        r is Ok ==> cur + 2 <= reales@.len(),
{
    proof {
        reveal_with_fuel(componentes, 3);
        assert(seq!['u', 'v'].drop_last() =~= seq!['u']);
        assert(seq!['u'].drop_last() =~= Seq::<char>::empty());
    }
    let u = match componente(toks, 1, 'u', cur, reales, n) {
        Ok(b) => b,
        Err(e) => {
            return Err(e);
        },
    };
    let v = match componente(toks, 2, 'v', cur, reales, n) {
        Ok(b) => b,
        Err(e) => {
            return Err(e);
        },
    };
    Ok(DVec2 { x: u, y: v })
}

/// Lee un índice.
fn indice_exec(p: Option<&Vec<char>>, total: usize, n: usize) -> (r: Result<u32, InteropError>)
    ensures
        r == indice(
            match p {
                Some(s) => Some(s@),
                None => None,
            },
            total as int,
            n as int,
        ),
{
    match p {
        Some(s) => {
            if s.len() == 0 {
                return Ok(u32::MAX);
            }
            match leer_entero(s) {
                None => Err(InteropError::Malformed { line: n, detail: Malformacion::IndiceIlegible }),
                Some(raw) => {
                    let i: i128 = if raw < 0 {
                        total as i128 + raw as i128
                    } else {
                        raw as i128 - 1
                    };
                    if i < 0 || i >= total as i128 {
                        Err(
                            InteropError::Malformed {
                                line: n,
                                detail: Malformacion::IndiceFuera { raw, total },
                            },
                        )
                    } else {
                        Ok(#[verifier::truncate] (i as u32))
                    }
                },
            }
        },
        None => Ok(u32::MAX),
    }
}

fn buscar_terna(s: &Vec<(u32, u32, u32)>, t: (u32, u32, u32)) -> (r: Option<usize>)
    ensures
        r is None <==> !s@.contains(t),
        r matches Some(i) ==> i == posicion_terna(s@, t),
{
    let mut i: usize = 0;
    assert(s@.skip(0) =~= s@);
    while i < s.len()
        invariant
            i <= s@.len(),
            forall|j: int| 0 <= j < i ==> s@[j] != t,
            posicion_terna(s@, t) == i + posicion_terna(s@.skip(i as int), t),
        decreases s@.len() - i,
    {
        let (a, b, c) = s[i];
        if a == t.0 && b == t.1 && c == t.2 {
            proof {
                assert(s@.skip(i as int)[0] == t);
            }
            return Some(i);
        }
        proof {
            assert(s@.skip(i as int)[0] != t);
            assert(s@.skip(i as int).drop_first() =~= s@.skip(i + 1));
        }
        i = i + 1;
    }
    None
}

impl Lector {
    fn vertice_exec(&mut self, tok: &Vec<char>, n: usize) -> (r: Option<Result<u32, InteropError>>)
        ensures
            match vertice(old(self).vista(), tok@, n as int) {
                Some(Err(e)) => r == Some(Err::<u32, InteropError>(e)),
                Some(Ok((v, i))) => r == Some(Ok::<u32, InteropError>(i)) && final(self).vista() == v,
                None => r is None,
            },
            final(self).cur == old(self).cur,
    {
        let ps = partir_exec(tok, '/');
        proof {
            crate::texto::lema_partir_no_vacio(tok@, '/');
        }
        let p0 = if ps.len() > 0 { Some(&ps[0]) } else { None };
        let p1 = if ps.len() > 1 { Some(&ps[1]) } else { None };
        let p2 = if ps.len() > 2 { Some(&ps[2]) } else { None };
        let ip = match indice_exec(p0, self.crudas.len(), n) {
            Ok(i) => i,
            Err(e) => {
                return Some(Err(e));
            },
        };
        proof {
            lema_indice_en_rango(
                match p0 {
                    Some(s) => Some(s@),
                    None => None,
                },
                self.crudas@.len() as int,
                n as int,
            );
            assert(ps@.len() > 0);
            assert(ps@[0]@ == partir(tok@, '/')[0]);
        }
        let tuv = if self.uvidx.len() > 1 { self.uvidx.len() } else { 1 };
        let it = match indice_exec(p1, tuv, n) {
            Ok(i) => i,
            Err(e) => {
                return Some(Err(e));
            },
        };
        let tn = if self.nidx.len() > 1 { self.nidx.len() } else { 1 };
        let inn = match indice_exec(p2, tn, n) {
            Ok(i) => i,
            Err(e) => {
                return Some(Err(e));
            },
        };
        let t = (ip, it, inn);
        if ps[0].len() == 0 {
            return None;
        }
        match buscar_terna(&self.ternas, t) {
            Some(q) => {
                proof {
                    lema_posicion_terna(self.ternas@, t);
                }
                Some(Ok(q as u32))
            },
            None => {
                let nuevo = #[verifier::truncate] (self.ternas.len() as u32);
                self.pos.push(self.crudas[ip as usize]);
                if inn != u32::MAX && (inn as usize) < self.nidx.len() {
                    self.nor.push(self.nidx[inn as usize]);
                }
                if it != u32::MAX && (it as usize) < self.uvidx.len() {
                    self.uv.push(self.uvidx[it as usize]);
                }
                self.ternas.push(t);
                Some(Ok(nuevo))
            },
        }
    }
}

proof fn lema_indice_en_rango(p: Option<Seq<char>>, total: int, n: int)
    ensures
        indice(p, total, n) matches Ok(v) ==> v == u32::MAX || (v as int) < total,
        (p matches Some(s) && s.len() > 0) ==> (indice(p, total, n) matches Ok(v) ==> (v as int) < total),
{
    if let Some(s) = p {
        if s.len() > 0 {
            if let Some(raw) = entero_de(s) {
                let i = if raw < 0 {
                    total + raw
                } else {
                    raw - 1
                };
                if 0 <= i < total {
                    if i < 0x1_0000_0000 {
                        assert((i as u32) as int == i);
                    }
                }
            }
        }
    }
}

proof fn lema_posicion_terna(s: Seq<(u32, u32, u32)>, t: (u32, u32, u32))
    ensures
        s.contains(t) ==> 0 <= posicion_terna(s, t) < s.len(),
    decreases s.len(),
{
    if s.len() > 0 {
        lema_posicion_terna(s.drop_first(), t);
        if s[0] != t && s.contains(t) {
            let j = choose|j: int| 0 <= j < s.len() && s[j] == t;
            assert(s.drop_first()[j - 1] == t);
        }
    }
}

proof fn lema_vertices_len(v: Vista, ts: Seq<Seq<char>>, n: int)
    ensures
        vertices(v, ts, n) matches Some(Ok((v2, is))) ==> is.len() == ts.len(),
    decreases ts.len(),
{
    if ts.len() > 0 {
        lema_vertices_len(v, ts.drop_last(), n);
    }
}

/// Una cara que falla en su vértice `k` falla igual entera.
proof fn lema_vertices_corte(v: Vista, ts: Seq<Seq<char>>, k: int, n: int)
    requires
        0 <= k <= ts.len(),
        !(vertices(v, ts.take(k), n) is Some && vertices(v, ts.take(k), n)->0 is Ok),
    ensures
        vertices(v, ts, n) == vertices(v, ts.take(k), n),
    decreases ts.len() - k,
{
    if k < ts.len() {
        assert(ts.take(k + 1).drop_last() =~= ts.take(k));
        lema_vertices_corte(v, ts, k + 1, n);
    } else {
        assert(ts.take(k) =~= ts);
    }
}

/// Añade a `idx` los triángulos en abanico de la cara `is`.
fn empujar_abanico(idx: &mut Vec<u32>, is: &Vec<u32>)
    requires
        is@.len() >= 3,
    ensures
        final(idx)@ == old(idx)@ + abanico_plano(is@, is@.len() - 1),
{
    let ghost idx0 = idx@;
    let m = is.len() - 1;
    let mut k: usize = 1;
    assert(idx@ =~= idx0 + abanico_plano(is@, 1));
    while k < m
        invariant
            is@.len() >= 3,
            m == is@.len() - 1,
            1 <= k <= m,
            idx@ == idx0 + abanico_plano(is@, k as int),
        decreases m - k,
    {
        idx.push(is[0]);
        idx.push(is[k]);
        idx.push(is[k + 1]);
        k = k + 1;
        assert(idx@ =~= idx0 + abanico_plano(is@, k as int));
    }
}

fn es1(t: &Vec<char>, a: char) -> (r: bool)
    ensures
        r == (t@ == seq![a]),
{
    let r = t.len() == 1 && t[0] == a;
    proof {
        if t@.len() == 1 && t@[0] == a {
            assert(t@ =~= seq![a]);
        }
    }
    r
}

fn es2(t: &Vec<char>, a: char, b: char) -> (r: bool)
    ensures
        r == (t@ == seq![a, b]),
{
    let r = t.len() == 2 && t[0] == a && t[1] == b;
    proof {
        if t@.len() == 2 && t@[0] == a && t@[1] == b {
            assert(t@ =~= seq![a, b]);
        }
    }
    r
}

/// Las fichas desde la segunda, unidas con un espacio.
fn unir_exec(toks: &Vec<Vec<char>>) -> (r: Vec<char>)
    requires
        toks@.len() >= 1,
    ensures
        r@ == unir(vistas_c(toks@).drop_first()),
{
    let ghost ts = vistas_c(toks@).drop_first();
    let mut out: Vec<char> = Vec::new();
    let mut j: usize = 1;
    assert(ts.take(0) =~= Seq::<Seq<char>>::empty());
    while j < toks.len()
        invariant
            1 <= j <= toks@.len(),
            ts == vistas_c(toks@).drop_first(),
            out@ == unir(ts.take(j - 1)),
        decreases toks@.len() - j,
    {
        let ghost antes = out@;
        if j > 1 {
            out.push(' ');
        }
        let t = &toks[j];
        let mut k: usize = 0;
        let ghost base = out@;
        while k < t.len()
            invariant
                k <= t@.len(),
                out@ == base + t@.take(k as int),
            decreases t@.len() - k,
        {
            out.push(t[k]);
            k = k + 1;
            assert(out@ =~= base + t@.take(k as int));
        }
        proof {
            assert(t@.take(t@.len() as int) =~= t@);
            assert(ts.take(j as int).drop_last() =~= ts.take(j - 1));
            assert(ts.take(j as int).last() == t@);
            if j == 1 {
                assert(ts.take(1)[0] == t@);
                assert(out@ =~= t@);
            } else {
                assert(out@ =~= antes + seq![' '] + t@);
            }
        }
        j = j + 1;
    }
    assert(ts.take(toks@.len() - 1) =~= ts);
    out
}

impl Lector {
    /// Los vértices de una línea `f` (las fichas desde la segunda).
    fn vertices_exec(&mut self, toks: &Vec<Vec<char>>, n: usize) -> (r: Option<Result<Vec<u32>, InteropError>>)
        requires
            toks@.len() >= 1,
        ensures
            match vertices(old(self).vista(), vistas_c(toks@).drop_first(), n as int) {
                Some(Err(e)) => r == Some(Err::<Vec<u32>, InteropError>(e)),
                Some(Ok((v, is))) => r matches Some(Ok(x)) && x@ == is && final(self).vista() == v,
                None => r is None,
            },
            final(self).cur == old(self).cur,
    {
        let ghost v0 = self.vista();
        let ghost ts = vistas_c(toks@).drop_first();
        let mut is: Vec<u32> = Vec::new();
        let mut j: usize = 1;
        assert(ts.take(0) =~= Seq::<Seq<char>>::empty());
        while j < toks.len()
            invariant
                1 <= j <= toks@.len(),
                ts == vistas_c(toks@).drop_first(),
                v0 == old(self).vista(),
                self.cur == old(self).cur,
                vertices(v0, ts.take(j - 1), n as int) == Some(
                    Ok::<(Vista, Seq<u32>), InteropError>((self.vista(), is@)),
                ),
            decreases toks@.len() - j,
        {
            proof {
                assert(ts.take(j as int).drop_last() =~= ts.take(j - 1));
                assert(ts.take(j as int).last() == toks@[j as int]@);
            }
            match self.vertice_exec(&toks[j], n) {
                Some(Ok(i)) => {
                    is.push(i);
                },
                Some(Err(e)) => {
                    proof {
                        lema_vertices_corte(v0, ts, j as int, n as int);
                    }
                    return Some(Err(e));
                },
                None => {
                    proof {
                        lema_vertices_corte(v0, ts, j as int, n as int);
                    }
                    return None;
                },
            }
            j = j + 1;
        }
        assert(ts.take(toks@.len() - 1) =~= ts);
        Some(Ok(is))
    }

    /// Una línea que no es una cara, dada por sus fichas (al menos una).
    fn linea_datos(&mut self, toks: &Vec<Vec<char>>, n: usize, reales: &Vec<Option<u64>>, y_up: bool) -> (r:
        Result<(), InteropError>)
        requires
            toks@.len() >= 1,
            old(self).cur + 3 <= usize::MAX,
        ensures
            match paso_datos(old(self).vista(), vistas_c(toks@), n as int, reales@, y_up) {
                Err(e) => r == Err::<(), InteropError>(e),
                Ok(v) => r == Ok::<(), InteropError>(()) && final(self).vista() == v,
            },
            final(self).cur == old(self).cur || final(self).cur <= reales@.len(),
    {
        let clave = &toks[0];
        assert(vistas_c(toks@)[0] == clave@);
        if es1(clave, 'o') || es1(clave, 'g') {
            if self.nombre.len() == 0 {
                self.nombre = unir_exec(toks);
            }
            Ok(())
        } else if es1(clave, 'v') || es2(clave, 'v', 'n') {
            let p = match leer_tres(toks, self.cur, reales, n) {
                Ok(p) => p,
                Err(e) => {
                    return Err(e);
                },
            };
            let p2 = if y_up {
                crate::interop::y_up_to_z_up(p)
            } else {
                p
            };
            if es1(clave, 'v') {
                self.crudas.push(p2);
            } else {
                self.nidx.push(p2);
            }
            self.cur = self.cur + 3;
            Ok(())
        } else if es2(clave, 'v', 't') {
            let t = match leer_dos(toks, self.cur, reales, n) {
                Ok(t) => t,
                Err(e) => {
                    return Err(e);
                },
            };
            self.uvidx.push(t);
            self.cur = self.cur + 2;
            Ok(())
        } else {
            Ok(())
        }
    }

    /// Una línea, dada por sus fichas.
    fn linea(&mut self, toks: &Vec<Vec<char>>, n: usize, reales: &Vec<Option<u64>>, y_up: bool) -> (r: Option<
        Result<(), InteropError>,
    >)
        requires
            old(self).cur + 3 <= usize::MAX,
        ensures
            match paso(old(self).vista(), vistas_c(toks@), n as int, reales@, y_up) {
                Some(Err(e)) => r == Some(Err::<(), InteropError>(e)),
                Some(Ok(v)) => r == Some(Ok::<(), InteropError>(())) && final(self).vista() == v,
                None => r is None,
            },
            final(self).cur == old(self).cur || final(self).cur <= reales@.len(),
    {
        if toks.len() == 0 {
            return Some(Ok(()));
        }
        assert(vistas_c(toks@)[0] == toks@[0]@);
        if !es1(&toks[0], 'f') {
            return Some(self.linea_datos(toks, n, reales, y_up));
        }
        if toks.len() - 1 < 3 {
            return Some(Err(InteropError::Malformed { line: n, detail: Malformacion::CaraCorta(toks.len() - 1) }));
        }
        let is = match self.vertices_exec(toks, n) {
            Some(Ok(is)) => is,
            Some(Err(e)) => {
                return Some(Err(e));
            },
            None => {
                return None;
            },
        };
        proof {
            lema_vertices_len(old(self).vista(), vistas_c(toks@).drop_first(), n as int);
        }
        empujar_abanico(&mut self.idx, &is);
        Some(Ok(()))
    }
}

/// Una lectura que se detiene en la línea `k` se queda como está.
proof fn lema_lineas_corte(ls: Seq<Seq<char>>, k: int, m: int, reales: Seq<Option<u64>>, y_up: bool)
    requires
        0 <= k <= m,
        !(tras_lineas(ls, k, reales, y_up) is Some && tras_lineas(ls, k, reales, y_up)->0 is Ok),
    ensures
        tras_lineas(ls, m, reales, y_up) == tras_lineas(ls, k, reales, y_up),
    decreases m - k,
{
    if m > k {
        lema_lineas_corte(ls, k, m - 1, reales, y_up);
    }
}

/// Las fichas de una línea: su contenido partido por blancos.
fn fichas_de_linea(l: &Vec<char>) -> (r: Vec<Vec<char>>)
    ensures
        vistas_c(r@) == fichas(contenido(l@)),
{
    let partes = partir_exec(l, '#');
    proof {
        crate::texto::lema_partir_no_vacio(l@, '#');
        assert(vistas_c(partes@)[0] == partes@[0]@);
    }
    let c = recortar_blancos(&partes[0]);
    fichas_exec(&c)
}

/// Las fichas reales de un texto OBJ, en el orden en que la lectura las usa:
/// quien llama convierte cada una en los bits de un `f64` (o `None` si no es
/// un número) y se las da a [`from_str_con_reales`] en ese orden.
pub fn fichas_reales(txt: &str) -> (r: Vec<String>)
    ensures
        vistas_s(r@) == reales_hasta(lineas(txt@), lineas(txt@).len() as int),
{
    let cs = caracteres(txt);
    let ls = partir_exec(&cs, '\n');
    let ghost lv = vistas_c(ls@);
    let mut out: Vec<String> = Vec::new();
    let mut k: usize = 0;
    while k < ls.len()
        invariant
            k <= ls@.len(),
            lv == vistas_c(ls@),
            lv == lineas(txt@),
            vistas_s(out@) == reales_hasta(lv, k as int),
        decreases ls@.len() - k,
    {
        let toks = fichas_de_linea(&ls[k]);
        proof {
            assert(lv[k as int] == ls@[k as int]@);
        }
        let ghost tv = vistas_c(toks@);
        let mut hasta: usize = 0;
        if toks.len() > 0 {
            assert(tv[0] == toks@[0]@);
            if es1(&toks[0], 'v') || es2(&toks[0], 'v', 'n') {
                hasta = if toks.len() < 4 { toks.len() } else { 4 };
            } else if es2(&toks[0], 'v', 't') {
                hasta = if toks.len() < 3 { toks.len() } else { 3 };
            }
        }
        let ghost antes = vistas_s(out@);
        let ghost nuevas = if hasta == 0 { Seq::<Seq<char>>::empty() } else { tv.subrange(1, hasta as int) };
        assert(nuevas == reales_de_linea(tv));
        if hasta > 0 {
            let mut j: usize = 1;
            assert(tv.subrange(1, 1) =~= Seq::<Seq<char>>::empty());
            assert(antes + tv.subrange(1, 1) =~= antes);
            while j < hasta
                invariant
                    1 <= j <= hasta,
                    hasta <= toks@.len(),
                    tv == vistas_c(toks@),
                    vistas_s(out@) == antes + tv.subrange(1, j as int),
                decreases hasta - j,
            {
                let ghost previo = out@;
                out.push(de_caracteres(&toks[j]));
                proof {
                    assert(tv[j as int] == toks@[j as int]@);
                    assert(vistas_s(out@) =~= vistas_s(previo).push(tv[j as int]));
                    assert(tv.subrange(1, j + 1) =~= tv.subrange(1, j as int).push(tv[j as int]));
                    assert(vistas_s(out@) =~= antes + tv.subrange(1, j + 1));
                }
                j = j + 1;
            }
        } else {
            assert(antes + nuevas =~= antes);
        }
        assert(vistas_s(out@) =~= antes + nuevas);
        proof {
            assert(reales_hasta(lv, k + 1) == reales_hasta(lv, k as int) + reales_de_linea(fichas(contenido(lv[k as int]))));
        }
        k = k + 1;
    }
    out
}

/// Lee un texto OBJ. `reales` son los números de [`fichas_reales`], en su
/// orden, ya convertidos a los bits de un `f64` (`None` si la ficha no es un
/// número). Cada línea con un error lo da con su número (desde 1); con
/// `y_up`, posiciones y normales pasan de Y arriba a Z arriba. Las normales y
/// las UV se descartan si no hay una por vértice, y la malla se valida.
/// `None`: una cara llega a un vértice sin posición.
pub fn from_str_con_reales(txt: &str, opts: ObjOptions, reales: &Vec<Option<u64>>) -> (r: Option<
    Result<TriangleSoup, InteropError>,
>)
    requires
        reales@.len() + 3 <= usize::MAX,
    ensures
        match lectura_obj(txt@, reales@, opts.y_up) {
            None => r is None,
            Some(Err(e)) => r == Some(Err::<TriangleSoup, InteropError>(e)),
            Some(Ok(m)) => r matches Some(Ok(s)) && s.name@ == m.0 && s.positions@ == m.1 && s.normals@ == m.2
                && s.uvs@ == m.3 && s.indices@ == m.4,
        },
{
    let cs = caracteres(txt);
    let ls = partir_exec(&cs, '\n');
    let ghost lv = vistas_c(ls@);
    let mut lector = Lector {
        nombre: Vec::new(),
        pos: Vec::new(),
        nor: Vec::new(),
        uv: Vec::new(),
        idx: Vec::new(),
        crudas: Vec::new(),
        nidx: Vec::new(),
        uvidx: Vec::new(),
        ternas: Vec::new(),
        cur: 0,
    };
    assert(lector.vista() =~= inicial());
    let mut k: usize = 0;
    while k < ls.len()
        invariant
            k <= ls@.len(),
            lv == vistas_c(ls@),
            lv == lineas(txt@),
            reales@.len() + 3 <= usize::MAX,
            lector.cur <= reales@.len(),
            tras_lineas(lv, k as int, reales@, opts.y_up) == Some(
                Ok::<Vista, InteropError>(lector.vista()),
            ),
        decreases ls@.len() - k,
    {
        let toks = fichas_de_linea(&ls[k]);
        proof {
            assert(lv[k as int] == ls@[k as int]@);
        }
        match lector.linea(&toks, k + 1, reales, opts.y_up) {
            Some(Ok(())) => {},
            Some(Err(e)) => {
                proof {
                    lema_lineas_corte(lv, k + 1, lv.len() as int, reales@, opts.y_up);
                }
                return Some(Err(e));
            },
            None => {
                proof {
                    lema_lineas_corte(lv, k + 1, lv.len() as int, reales@, opts.y_up);
                }
                return None;
            },
        }
        k = k + 1;
    }
    let Lector { nombre, pos, nor, uv, idx, .. } = lector;
    let nor = if nor.len() != pos.len() { Vec::new() } else { nor };
    let uv = if uv.len() != pos.len() { Vec::new() } else { uv };
    let soup = TriangleSoup { name: de_caracteres(&nombre), positions: pos, normals: nor, uvs: uv, indices: idx };
    match soup.validate() {
        Ok(()) => Some(Ok(soup)),
        Err(e) => Some(Err(e)),
    }
}

proof fn lema_vertice_cursor(v: Vista, tok: Seq<char>, n: int)
    ensures
        vertice(v, tok, n) matches Some(Ok((v2, i))) ==> v2.3 == v.3,
{
}

proof fn lema_vertices_cursor(v: Vista, ts: Seq<Seq<char>>, n: int)
    ensures
        vertices(v, ts, n) matches Some(Ok((v2, is))) ==> v2.3 == v.3,
    decreases ts.len(),
{
    if ts.len() > 0 {
        lema_vertices_cursor(v, ts.drop_last(), n);
        if let Some(Ok((v1, is))) = vertices(v, ts.drop_last(), n) {
            lema_vertice_cursor(v1, ts.last(), n);
        }
    }
}

proof fn lema_componentes_largo(toks: Seq<Seq<char>>, nombres: Seq<char>, cur: int, reales: Seq<Option<u64>>, n: int)
    ensures
        componentes(toks, nombres, cur, reales, n) matches Ok(c) ==> c.len() == nombres.len() && (nombres.len()
            == 0 || toks.len() > nombres.len()),
    decreases nombres.len(),
{
    if nombres.len() > 0 {
        lema_componentes_largo(toks, nombres.drop_last(), cur, reales, n);
    }
}

proof fn lema_paso_cursor(v: Vista, toks: Seq<Seq<char>>, n: int, reales: Seq<Option<u64>>, y_up: bool)
    ensures
        paso(v, toks, n, reales, y_up) matches Some(Ok(v2)) ==> v2.3 == v.3 + reales_de_linea(toks).len(),
{
    if toks.len() > 0 {
        let c = toks[0];
        let f = seq!['f'];
        let vv = seq!['v'];
        let vn = seq!['v', 'n'];
        let vt = seq!['v', 't'];
        assert(f[0] != vv[0] && f.len() != vn.len() && f.len() != vt.len() && vn[1] != vt[1]);
        assert(c == f ==> c != vv && c != vn && c != vt);
        assert(c == vn ==> c != vt);
        if c == f {
            lema_vertices_cursor(v, toks.drop_first(), n);
        } else {
            lema_componentes_largo(toks, seq!['x', 'y', 'z'], v.3, reales, n);
            lema_componentes_largo(toks, seq!['u', 'v'], v.3, reales, n);
            let o = seq!['o'];
            let g = seq!['g'];
            assert(o[0] != vv[0] && o.len() != vn.len() && o.len() != vt.len());
            assert(g[0] != vv[0] && g.len() != vn.len() && g.len() != vt.len());
            assert(c == o || c == g ==> c != vv && c != vn && c != vt);
        }
    }
}

/// Cada línea lee sus números de donde [`fichas_reales`] los pone: tras las
/// primeras `k` líneas leídas sin error, la lectura ha usado exactamente las
/// fichas reales que esa función lista para ellas.
pub proof fn ley_reales_alineados(ls: Seq<Seq<char>>, k: int, reales: Seq<Option<u64>>, y_up: bool)
    ensures
        tras_lineas(ls, k, reales, y_up) matches Some(Ok(v)) ==> v.3 == reales_hasta(ls, k).len(),
    decreases k,
{
    if k > 0 {
        ley_reales_alineados(ls, k - 1, reales, y_up);
        if let Some(Ok(v)) = tras_lineas(ls, k - 1, reales, y_up) {
            lema_paso_cursor(v, fichas(contenido(ls[k - 1])), k, reales, y_up);
        }
    }
}


// ---------------------------------------------------------------------------
// Escritura
// ---------------------------------------------------------------------------

/// Una línea por elemento de `xs`, cada una con su prefijo.
pub open spec fn lineas_obj(prefijo: Seq<char>, xs: Seq<Seq<char>>) -> Seq<char>
    decreases xs.len(),
{
    if xs.len() == 0 {
        Seq::empty()
    } else {
        lineas_obj(prefijo, xs.drop_last()) + prefijo + xs.last() + "\n"@
    }
}

/// Un vértice de cara: el índice desde 1, repetido para la UV y la normal
/// que se escriben.
pub open spec fn vertice_obj(i: u32, con_uv: bool, con_n: bool) -> Seq<char> {
    let n = decimal(i as nat + 1);
    if con_uv && con_n {
        n + "/"@ + n + "/"@ + n
    } else if con_n {
        n + "//"@ + n
    } else if con_uv {
        n + "/"@ + n
    } else {
        n
    }
}

/// La línea `f` del triángulo `k` (desde 1).
pub open spec fn linea_cara(idx: Seq<u32>, k: int, con_uv: bool, con_n: bool) -> Seq<char> {
    "f "@ + vertice_obj(idx[3 * k - 3], con_uv, con_n) + " "@ + vertice_obj(idx[3 * k - 2], con_uv, con_n)
        + " "@ + vertice_obj(idx[3 * k - 1], con_uv, con_n) + "\n"@
}

/// Las líneas `f` de los `k` primeros triángulos.
pub open spec fn caras_obj(idx: Seq<u32>, k: int, con_uv: bool, con_n: bool) -> Seq<char>
    decreases k,
{
    if k <= 0 {
        Seq::empty()
    } else {
        caras_obj(idx, k - 1, con_uv, con_n) + linea_cara(idx, k, con_uv, con_n)
    }
}

/// La cabecera: de dónde sale, las unidades, los ejes y el nombre si lo hay.
pub open spec fn cabecera_obj(nombre: Seq<char>, y_up: bool) -> Seq<char> {
    "# generado por FORGE\n# unidades: milimetros · ejes: "@ + (if y_up {
        "Y arriba"@
    } else {
        "Z arriba"@
    }) + "\n"@ + (if nombre.len() > 0 {
        "o "@ + nombre + "\n"@
    } else {
        Seq::empty()
    })
}

/// El texto OBJ de una malla llamada `nombre`, con las coordenadas ya
/// escritas (`v`, `vt`, `vn`, una entrada por vértice) y los índices: la
/// cabecera, el nombre si lo hay, las posiciones, las UV y las normales si se
/// piden y las hay, y un triángulo por línea con los índices desde 1.
pub open spec fn texto_obj(
    nombre: Seq<char>,
    opts: ObjOptions,
    v: Seq<Seq<char>>,
    vt: Seq<Seq<char>>,
    vn: Seq<Seq<char>>,
    idx: Seq<u32>,
) -> Seq<char> {
    let con_uv = opts.write_uvs && vt.len() > 0;
    let con_n = opts.write_normals && vn.len() > 0;
    cabecera_obj(nombre, opts.y_up) + lineas_obj("v "@, v) + (if con_uv {
        lineas_obj("vt "@, vt)
    } else {
        Seq::empty()
    }) + (if con_n {
        lineas_obj("vn "@, vn)
    } else {
        Seq::empty()
    }) + caras_obj(idx, (idx.len() / 3) as int, con_uv, con_n)
}

fn anadir_lineas(out: &mut Vec<char>, prefijo: &str, xs: &Vec<String>)
    ensures
        final(out)@ == old(out)@ + lineas_obj(prefijo@, vistas_c_str(xs@)),
{
    let ghost antes = out@;
    let mut i: usize = 0;
    while i < xs.len()
        invariant
            i <= xs@.len(),
            out@ == antes + lineas_obj(prefijo@, vistas_c_str(xs@).take(i as int)),
        decreases xs@.len() - i,
    {
        let ghost previo = out@;
        anadir(out, prefijo);
        anadir(out, xs[i].as_str());
        anadir(out, "\n");
        proof {
            assert(vistas_c_str(xs@).take(i + 1).drop_last() =~= vistas_c_str(xs@).take(i as int));
            assert(out@ =~= antes + lineas_obj(prefijo@, vistas_c_str(xs@).take(i + 1)));
        }
        i = i + 1;
    }
    assert(vistas_c_str(xs@).take(xs@.len() as int) =~= vistas_c_str(xs@));
}

/// Los textos de una lista de cadenas.
pub open spec fn vistas_c_str(xs: Seq<String>) -> Seq<Seq<char>> {
    Seq::new(xs.len(), |i: int| xs[i]@)
}

fn anadir_cabecera(out: &mut Vec<char>, nombre: &String, y_up: bool)
    ensures
        final(out)@ == old(out)@ + cabecera_obj(nombre@, y_up),
{
    anadir(out, "# generado por FORGE\n# unidades: milimetros · ejes: ");
    if y_up {
        anadir(out, "Y arriba");
    } else {
        anadir(out, "Z arriba");
    }
    anadir(out, "\n");
    if caracteres(nombre.as_str()).len() > 0 {
        anadir(out, "o ");
        anadir(out, nombre.as_str());
        anadir(out, "\n");
    }
    assert(final(out)@ =~= old(out)@ + cabecera_obj(nombre@, y_up));
}

fn anadir_cara(out: &mut Vec<char>, idx: &Vec<u32>, k: usize, con_uv: bool, con_n: bool)
    requires
        1 <= k,
        3 * k <= idx@.len(),
        forall|i: int| 0 <= i < idx@.len() ==> idx@[i] < u32::MAX,
    ensures
        final(out)@ == old(out)@ + linea_cara(idx@, k as int, con_uv, con_n),
{
    let n = idx.len();
    assert(3 * k <= n);
    let i0 = 3 * k - 3;
    let ghost antes = out@;
    let ghost x0 = vertice_obj(idx@[i0 as int], con_uv, con_n);
    let ghost x1 = vertice_obj(idx@[i0 + 1], con_uv, con_n);
    let ghost x2 = vertice_obj(idx@[i0 + 2], con_uv, con_n);
    anadir(out, "f ");
    anadir_vertice(out, idx[i0], con_uv, con_n);
    anadir(out, " ");
    anadir_vertice(out, idx[i0 + 1], con_uv, con_n);
    anadir(out, " ");
    anadir_vertice(out, idx[i0 + 2], con_uv, con_n);
    anadir(out, "\n");
    assert(out@ =~= antes + ("f "@ + x0 + " "@ + x1 + " "@ + x2 + "\n"@));
}

fn anadir_vertice(out: &mut Vec<char>, i: u32, con_uv: bool, con_n: bool)
    requires
        i < u32::MAX,
    ensures
        final(out)@ == old(out)@ + vertice_obj(i, con_uv, con_n),
{
    let n = (i as u64) + 1;
    let ghost d = decimal(i as nat + 1);
    empujar_decimal(out, n);
    if con_uv && con_n {
        anadir(out, "/");
        empujar_decimal(out, n);
        anadir(out, "/");
        empujar_decimal(out, n);
    } else if con_n {
        anadir(out, "//");
        empujar_decimal(out, n);
    } else if con_uv {
        anadir(out, "/");
        empujar_decimal(out, n);
    }
    assert(final(out)@ =~= old(out)@ + vertice_obj(i, con_uv, con_n));
}

/// Escribe el texto OBJ de una malla cuyas coordenadas ya están escritas.
pub fn componer_obj(
    nombre: &String,
    opts: ObjOptions,
    v: &Vec<String>,
    vt: &Vec<String>,
    vn: &Vec<String>,
    idx: &Vec<u32>,
) -> (r: String)
    requires
        forall|i: int| 0 <= i < idx@.len() ==> idx@[i] < u32::MAX,
    ensures
        r@ == texto_obj(nombre@, opts, vistas_c_str(v@), vistas_c_str(vt@), vistas_c_str(vn@), idx@),
{
    let con_uv = opts.write_uvs && vt.len() > 0;
    let con_n = opts.write_normals && vn.len() > 0;
    let mut out: Vec<char> = Vec::new();
    anadir_cabecera(&mut out, nombre, opts.y_up);
    let ghost cab = out@;
    anadir_lineas(&mut out, "v ", v);
    if con_uv {
        anadir_lineas(&mut out, "vt ", vt);
    }
    if con_n {
        anadir_lineas(&mut out, "vn ", vn);
    }
    let ghost cuerpo = out@;
    let nidx = idx.len();
    let ntri = nidx / 3;
    let mut k: usize = 0;
    while k < ntri
        invariant
            k <= ntri,
            nidx == idx@.len(),
            ntri == idx@.len() / 3,
            3 * ntri <= nidx,
            forall|i: int| 0 <= i < idx@.len() ==> idx@[i] < u32::MAX,
            out@ == cuerpo + caras_obj(idx@, k as int, con_uv, con_n),
        decreases ntri - k,
    {
        k = k + 1;
        anadir_cara(&mut out, idx, k, con_uv, con_n);
        assert(out@ =~= cuerpo + caras_obj(idx@, k as int, con_uv, con_n));
    }
    assert(out@ =~= texto_obj(nombre@, opts, vistas_c_str(v@), vistas_c_str(vt@), vistas_c_str(vn@), idx@));
    de_caracteres(&out)
}

} // verus!
