//! La frontera de una unión de cajas disjuntas, sobre la rejilla que forman
//! sus coordenadas.
//!
//! Quien llama ordena y funde las coordenadas de las cajas por eje, que son
//! números reales, y marca qué pieza ocupa cada celda. Aquí se decide el
//! resto: una cara por cada lado de celda llena que da a una vacía, con los
//! mismos bucles que una caja para no volver a razonar el sentido de giro, y
//! los vértices bajo demanda por nodo de rejilla, de modo que dos celdas
//! vecinas comparten los suyos sin comparar coordenadas.

use vstd::prelude::*;

use crate::kernel::KernelError;
use crate::texto::{anadir, de_caracteres, decimal, empujar_decimal};

verus! {

/// Tope de celdas de la rejilla: un cambio futuro que la haga crecer revienta
/// aquí en vez de reservar gigabytes en silencio.
pub const TOPE_DE_CELDAS: u128 = 100_000;

/// El mensaje de una rejilla demasiado grande.
pub open spec fn mensaje_rejilla(nx: usize, ny: usize, nz: usize) -> Seq<char> {
    "rejilla "@ + decimal(nx as nat) + "x"@ + decimal(ny as nat) + "x"@ + decimal(nz as nat)
        + " demasiado grande"@
}

/// El mensaje de una unión sin ninguna cara.
pub open spec fn mensaje_vacio() -> Seq<char> {
    "el resultado del booleano es vacio"@
}

/// Las esquinas de una celda, con el bit de x, el de y y el de z en el orden
/// en que las numera una caja.
pub open spec fn esquina(e: int) -> (int, int, int) {
    if e == 0 {
        (0, 0, 0)
    } else if e == 1 {
        (1, 0, 0)
    } else if e == 2 {
        (1, 1, 0)
    } else if e == 3 {
        (0, 1, 0)
    } else if e == 4 {
        (0, 0, 1)
    } else if e == 5 {
        (1, 0, 1)
    } else if e == 6 {
        (1, 1, 1)
    } else {
        (0, 1, 1)
    }
}

/// El bucle de esquinas de cada lado de una celda, hacia fuera.
pub open spec fn bucle_de_lado(l: int) -> Seq<int> {
    if l == 0 {
        seq![0, 3, 2, 1]
    } else if l == 1 {
        seq![4, 5, 6, 7]
    } else if l == 2 {
        seq![0, 1, 5, 4]
    } else if l == 3 {
        seq![2, 3, 7, 6]
    } else if l == 4 {
        seq![1, 2, 6, 5]
    } else {
        seq![0, 4, 7, 3]
    }
}

/// El desplazamiento hasta la celda vecina por cada lado.
pub open spec fn vecino(l: int) -> (int, int, int) {
    if l == 0 {
        (0, 0, -1)
    } else if l == 1 {
        (0, 0, 1)
    } else if l == 2 {
        (0, -1, 0)
    } else if l == 3 {
        (0, 1, 0)
    } else if l == 4 {
        (1, 0, 0)
    } else {
        (-1, 0, 0)
    }
}

/// La posición de la celda (i, j, k) en la lista de ocupación.
pub open spec fn indice_celda(ny: int, nz: int, i: int, j: int, k: int) -> int {
    (i * ny + j) * nz + k
}

/// La posición del nodo (a, b, c) en una lista por nodos de rejilla.
pub open spec fn indice_nodo_rejilla(ny: int, nz: int, a: int, b: int, c: int) -> int {
    (a * (ny + 1) + b) * (nz + 1) + c
}

/// ¿Está dentro de la rejilla y ocupada la celda (i, j, k)?
pub open spec fn llena(nx: int, ny: int, nz: int, oc: Seq<Option<usize>>, i: int, j: int, k: int) -> bool {
    0 <= i < nx && 0 <= j < ny && 0 <= k < nz && oc[indice_celda(ny, nz, i, j, k)] is Some
}

/// Los nodos de rejilla del lado `l` de la celda (i, j, k), en el orden del
/// bucle.
pub open spec fn esquinas(l: int, i: int, j: int, k: int) -> Seq<(int, int, int)> {
    bucle_de_lado(l).map_values(|e: int| (i + esquina(e).0, j + esquina(e).1, k + esquina(e).2))
}

/// Una cara de la frontera: la pieza que ocupa su celda, el lado, la celda y
/// los nodos de su bucle.
pub type CaraS = (usize, int, (int, int, int), Seq<(int, int, int)>);

/// Las caras de los `l` primeros lados de la celda (i, j, k), ocupada por la
/// pieza `p`: las de los lados que dan a una celda vacía o a fuera.
pub open spec fn lados(
    nx: int,
    ny: int,
    nz: int,
    oc: Seq<Option<usize>>,
    i: int,
    j: int,
    k: int,
    p: usize,
    l: int,
) -> Seq<CaraS>
    decreases l,
{
    if l <= 0 {
        Seq::empty()
    } else {
        lados(nx, ny, nz, oc, i, j, k, p, l - 1) + if llena(
            nx,
            ny,
            nz,
            oc,
            i + vecino(l - 1).0,
            j + vecino(l - 1).1,
            k + vecino(l - 1).2,
        ) {
            Seq::empty()
        } else {
            seq![(p, l - 1, (i, j, k), esquinas(l - 1, i, j, k))]
        }
    }
}

/// Las caras de la celda (i, j, k).
pub open spec fn caras_de_celda(nx: int, ny: int, nz: int, oc: Seq<Option<usize>>, i: int, j: int, k: int) -> Seq<
    CaraS,
> {
    match oc[indice_celda(ny, nz, i, j, k)] {
        None => Seq::empty(),
        Some(p) => lados(nx, ny, nz, oc, i, j, k, p, 6),
    }
}

/// Las caras de las `k` primeras celdas de la fila (i, j).
pub open spec fn caras_de_fila(nx: int, ny: int, nz: int, oc: Seq<Option<usize>>, i: int, j: int, k: int) -> Seq<
    CaraS,
>
    decreases k,
{
    if k <= 0 {
        Seq::empty()
    } else {
        caras_de_fila(nx, ny, nz, oc, i, j, k - 1) + caras_de_celda(nx, ny, nz, oc, i, j, k - 1)
    }
}

/// Las caras de las `j` primeras filas de la capa `i`.
pub open spec fn caras_de_capa(nx: int, ny: int, nz: int, oc: Seq<Option<usize>>, i: int, j: int) -> Seq<CaraS>
    decreases j,
{
    if j <= 0 {
        Seq::empty()
    } else {
        caras_de_capa(nx, ny, nz, oc, i, j - 1) + caras_de_fila(nx, ny, nz, oc, i, j - 1, nz)
    }
}

/// Las caras de las `i` primeras capas.
pub open spec fn caras_hasta(nx: int, ny: int, nz: int, oc: Seq<Option<usize>>, i: int) -> Seq<CaraS>
    decreases i,
{
    if i <= 0 {
        Seq::empty()
    } else {
        caras_hasta(nx, ny, nz, oc, i - 1) + caras_de_capa(nx, ny, nz, oc, i - 1, ny)
    }
}

/// Todas las caras de la frontera, celda a celda en orden (i, j, k) y lado a
/// lado dentro de cada celda.
pub open spec fn caras_de_rejilla(nx: int, ny: int, nz: int, oc: Seq<Option<usize>>) -> Seq<CaraS> {
    caras_hasta(nx, ny, nz, oc, nx)
}

/// Los nodos de los bucles de una lista de caras, uno tras otro.
pub open spec fn nodos_de(cs: Seq<CaraS>) -> Seq<(int, int, int)>
    decreases cs.len(),
{
    if cs.len() == 0 {
        Seq::empty()
    } else {
        nodos_de(cs.drop_last()) + cs.last().3
    }
}

/// Los elementos de `s` sin repetir, en el orden en que aparecen por primera
/// vez.
pub open spec fn primeros<A>(s: Seq<A>) -> Seq<A>
    decreases s.len(),
{
    if s.len() == 0 {
        Seq::empty()
    } else {
        let p = primeros(s.drop_last());
        if p.contains(s.last()) {
            p
        } else {
            p.push(s.last())
        }
    }
}

// ---------------------------------------------------------------------------
// Aritmética de índices
// ---------------------------------------------------------------------------

proof fn lema_dentro(a: int, b: int, na: int, nb: int)
    by (nonlinear_arith)
    requires
        0 <= a < na,
        0 <= b < nb,
    ensures
        0 <= a * nb + b < na * nb,
{
}

proof fn lema_inyectiva(a: int, b: int, a2: int, b2: int, nb: int)
    by (nonlinear_arith)
    requires
        0 <= b < nb,
        0 <= b2 < nb,
        a * nb + b == a2 * nb + b2,
    ensures
        a == a2,
        b == b2,
{
}

/// La celda (i, j, k) de la rejilla está en la lista de ocupación.
proof fn lema_celda(nx: int, ny: int, nz: int, i: int, j: int, k: int)
    requires
        0 <= i < nx,
        0 <= j < ny,
        0 <= k < nz,
    ensures
        0 <= indice_celda(ny, nz, i, j, k) < nx * ny * nz,
{
    lema_dentro(i, j, nx, ny);
    lema_dentro(i * ny + j, k, nx * ny, nz);
}

/// Cada nodo de la rejilla tiene su propia posición en la lista por nodos.
proof fn lema_nodo(nx: int, ny: int, nz: int, a: int, b: int, c: int)
    requires
        0 <= a <= nx,
        0 <= b <= ny,
        0 <= c <= nz,
    ensures
        0 <= indice_nodo_rejilla(ny, nz, a, b, c) < (nx + 1) * (ny + 1) * (nz + 1),
        forall|a2: int, b2: int, c2: int|
            0 <= b2 <= ny && 0 <= c2 <= nz && #[trigger] indice_nodo_rejilla(ny, nz, a2, b2, c2)
                == indice_nodo_rejilla(ny, nz, a, b, c) ==> a2 == a && b2 == b && c2 == c,
{
    lema_dentro(a, b, nx + 1, ny + 1);
    lema_dentro(a * (ny + 1) + b, c, (nx + 1) * (ny + 1), nz + 1);
    assert forall|a2: int, b2: int, c2: int|
        0 <= b2 <= ny && 0 <= c2 <= nz && #[trigger] indice_nodo_rejilla(ny, nz, a2, b2, c2)
            == indice_nodo_rejilla(ny, nz, a, b, c) implies a2 == a && b2 == b && c2 == c by {
        lema_inyectiva(a2 * (ny + 1) + b2, c2, a * (ny + 1) + b, c, nz + 1);
        lema_inyectiva(a2, b2, a, b, ny + 1);
    }
}

// ---------------------------------------------------------------------------
// El tope de la rejilla
// ---------------------------------------------------------------------------

fn mensaje_de_rejilla(nx: usize, ny: usize, nz: usize) -> (r: String)
    ensures
        r@ == mensaje_rejilla(nx, ny, nz),
{
    let mut v: Vec<char> = Vec::new();
    anadir(&mut v, "rejilla ");
    empujar_decimal(&mut v, nx as u64);
    anadir(&mut v, "x");
    empujar_decimal(&mut v, ny as u64);
    anadir(&mut v, "x");
    empujar_decimal(&mut v, nz as u64);
    anadir(&mut v, " demasiado grande");
    de_caracteres(&v)
}

/// ¿Cabe en el tope una rejilla de `nx` × `ny` × `nz` celdas?
pub fn rejilla_admisible(nx: usize, ny: usize, nz: usize) -> (r: Result<(), KernelError>)
    ensures
        r is Ok <==> nx * ny * nz <= TOPE_DE_CELDAS,
        r matches Err(e) ==> (e matches KernelError::Degenerate { hint } && hint@ == mensaje_rejilla(nx, ny, nz)),
{
    let cabe = if nx == 0 || ny == 0 || nz == 0 {
        assert(nx * ny * nz == 0) by (nonlinear_arith)
            requires
                nx == 0 || ny == 0 || nz == 0,
        ;
        true
    } else {
        assert((nx as u128) * (ny as u128) <= 0xffff_ffff_ffff_ffff_ffff_ffff_ffff_ffffu128) by (nonlinear_arith)
            requires
                nx <= 0xffff_ffff_ffff_ffffu64,
                ny <= 0xffff_ffff_ffff_ffffu64,
        ;
        let p: u128 = (nx as u128) * (ny as u128);
        if p > TOPE_DE_CELDAS {
            assert(nx * ny * nz > TOPE_DE_CELDAS) by (nonlinear_arith)
                requires
                    nx * ny > TOPE_DE_CELDAS,
                    nz >= 1,
            ;
            false
        } else {
            assert(p * (nz as u128) <= 0xffff_ffff_ffff_ffff_ffff_ffff_ffff_ffffu128) by (nonlinear_arith)
                requires
                    p <= TOPE_DE_CELDAS,
                    nz <= 0xffff_ffff_ffff_ffffu64,
            ;
            p * (nz as u128) <= TOPE_DE_CELDAS
        }
    };
    if cabe {
        Ok(())
    } else {
        Err(KernelError::Degenerate { hint: mensaje_de_rejilla(nx, ny, nz) })
    }
}

// ---------------------------------------------------------------------------
// La frontera
// ---------------------------------------------------------------------------

/// Una cara de la frontera.
#[derive(Debug)]
pub struct CaraDeRejilla {
    /// La pieza que ocupa la celda.
    pub pieza: usize,
    /// Cuál de los seis lados de la celda.
    pub lado: usize,
    /// La celda (i, j, k).
    pub celda: (usize, usize, usize),
    /// Los vértices del bucle, por su posición en `Frontera::nodos`.
    pub bucle: Vec<u32>,
}

/// Las caras de la frontera y, por cada vértice, su nodo de rejilla.
#[derive(Debug)]
pub struct Frontera {
    pub caras: Vec<CaraDeRejilla>,
    pub nodos: Vec<(usize, usize, usize)>,
}

pub open spec fn nodo_v(t: (usize, usize, usize)) -> (int, int, int) {
    (t.0 as int, t.1 as int, t.2 as int)
}

pub open spec fn nodos_v(s: Seq<(usize, usize, usize)>) -> Seq<(int, int, int)> {
    Seq::new(s.len(), |i: int| nodo_v(s[i]))
}

/// `c` es la cara `s`, con sus vértices en `nodos`.
pub open spec fn describe(c: CaraDeRejilla, s: CaraS, nodos: Seq<(usize, usize, usize)>) -> bool {
    &&& c.pieza == s.0
    &&& c.lado == s.1
    &&& nodo_v(c.celda) == s.2
    &&& c.bucle@.len() == s.3.len()
    &&& forall|m: int|
        0 <= m < c.bucle@.len() ==> (#[trigger] c.bucle@[m]) < nodos.len() && nodo_v(nodos[c.bucle@[m] as int])
            == s.3[m]
}

/// `f` es la frontera de la rejilla: sus caras, en orden, y sus vértices, sin
/// repetir y en el orden en que los usan las caras.
pub open spec fn frontera_de(f: Frontera, nx: int, ny: int, nz: int, oc: Seq<Option<usize>>) -> bool {
    let s = caras_de_rejilla(nx, ny, nz, oc);
    &&& f.caras@.len() == s.len()
    &&& forall|q: int| 0 <= q < s.len() ==> describe(#[trigger] f.caras@[q], s[q], f.nodos@)
    &&& nodos_v(f.nodos@) == primeros(nodos_de(s))
}

/// La tabla de vértices por nodo de rejilla: `u32::MAX` si el nodo aún no
/// tiene vértice, y si no la posición del suyo.
spec fn mapa_bien(mapa: Seq<u32>, verts: Seq<(usize, usize, usize)>, nx: int, ny: int, nz: int) -> bool {
    &&& mapa.len() == (nx + 1) * (ny + 1) * (nz + 1)
    &&& forall|a: int, b: int, c: int|
        0 <= a <= nx && 0 <= b <= ny && 0 <= c <= nz ==> {
            let v = #[trigger] mapa[indice_nodo_rejilla(ny, nz, a, b, c)];
            &&& (v == u32::MAX <==> !nodos_v(verts).contains((a, b, c)))
            &&& (v != u32::MAX ==> v < verts.len() && nodo_v(verts[v as int]) == (a, b, c))
        }
}

spec fn estado(
    out: Seq<CaraDeRejilla>,
    verts: Seq<(usize, usize, usize)>,
    mapa: Seq<u32>,
    s: Seq<CaraS>,
    nx: int,
    ny: int,
    nz: int,
) -> bool {
    &&& out.len() == s.len()
    &&& forall|q: int| 0 <= q < s.len() ==> describe(#[trigger] out[q], s[q], verts)
    &&& nodos_v(verts) == primeros(nodos_de(s))
    &&& mapa_bien(mapa, verts, nx, ny, nz)
    &&& verts.len() <= 4 * out.len()
}

proof fn lema_describe_crece(c: CaraDeRejilla, s: CaraS, v1: Seq<(usize, usize, usize)>, v2: Seq<(usize, usize, usize)>)
    requires
        describe(c, s, v1),
        v1.len() <= v2.len(),
        forall|q: int| 0 <= q < v1.len() ==> v2[q] == v1[q],
    ensures
        describe(c, s, v2),
{
    assert forall|m: int| 0 <= m < c.bucle@.len() implies (#[trigger] c.bucle@[m]) < v2.len() && nodo_v(
        v2[c.bucle@[m] as int],
    ) == s.3[m] by {
        assert(c.bucle@[m] < v1.len());
    }
}

/// El vértice del nodo (a, b, c): el que ya tenía, o uno nuevo al final.
fn vertice(
    mapa: &mut Vec<u32>,
    verts: &mut Vec<(usize, usize, usize)>,
    nx: usize,
    ny: usize,
    nz: usize,
    a: usize,
    b: usize,
    c: usize,
) -> (r: u32)
    requires
        mapa_bien(old(mapa)@, old(verts)@, nx as int, ny as int, nz as int),
        a <= nx,
        b <= ny,
        c <= nz,
        old(verts)@.len() < u32::MAX,
        (nx + 1) * (ny + 1) * (nz + 1) <= usize::MAX,
    ensures
        mapa_bien(final(mapa)@, final(verts)@, nx as int, ny as int, nz as int),
        nodos_v(final(verts)@) == if nodos_v(old(verts)@).contains((a as int, b as int, c as int)) {
            nodos_v(old(verts)@)
        } else {
            nodos_v(old(verts)@).push((a as int, b as int, c as int))
        },
        old(verts)@.len() <= final(verts)@.len() <= old(verts)@.len() + 1,
        forall|q: int| 0 <= q < old(verts)@.len() ==> final(verts)@[q] == old(verts)@[q],
        r < final(verts)@.len(),
        nodo_v(final(verts)@[r as int]) == (a as int, b as int, c as int),
{
    let ghost (gx, gy, gz) = (nx as int, ny as int, nz as int);
    proof {
        lema_nodo(gx, gy, gz, a as int, b as int, c as int);
        lema_dentro(a as int, b as int, gx + 1, gy + 1);
        assert((nx + 1) * (ny + 1) <= (nx + 1) * (ny + 1) * (nz + 1)) by (nonlinear_arith);
        assert(ny + 1 <= (nx + 1) * (ny + 1)) by (nonlinear_arith);
        assert(nz + 1 <= (nx + 1) * (ny + 1) * (nz + 1)) by (nonlinear_arith);
        assert(a * (ny + 1) <= a * (ny + 1) + b);
        assert((a * (ny + 1) + b) * (nz + 1) <= (a * (ny + 1) + b) * (nz + 1) + c);
    }
    let f = (a * (ny + 1) + b) * (nz + 1) + c;
    assert(f == indice_nodo_rejilla(gy, gz, a as int, b as int, c as int));
    let t = (a, b, c);
    let ghost tv = (a as int, b as int, c as int);
    let ghost viejos = verts@;
    let ghost mapa0 = mapa@;
    if mapa[f] == u32::MAX {
        let nuevo = verts.len() as u32;
        mapa.set(f, nuevo);
        verts.push(t);
        proof {
            assert(nodos_v(verts@) =~= nodos_v(viejos).push(tv));
            assert forall|a2: int, b2: int, c2: int|
                0 <= a2 <= gx && 0 <= b2 <= gy && 0 <= c2 <= gz implies {
                    let v = #[trigger] mapa@[indice_nodo_rejilla(gy, gz, a2, b2, c2)];
                    &&& (v == u32::MAX <==> !nodos_v(verts@).contains((a2, b2, c2)))
                    &&& (v != u32::MAX ==> v < verts@.len() && nodo_v(verts@[v as int]) == (a2, b2, c2))
                } by {
                lema_nodo(gx, gy, gz, a2, b2, c2);
                if (a2, b2, c2) == tv {
                    assert(mapa@[indice_nodo_rejilla(gy, gz, a2, b2, c2)] == nuevo);
                    assert(nodos_v(verts@)[viejos.len() as int] == tv);
                } else {
                    assert(indice_nodo_rejilla(gy, gz, a2, b2, c2) != f);
                    assert(mapa@[indice_nodo_rejilla(gy, gz, a2, b2, c2)] == mapa0[indice_nodo_rejilla(gy, gz, a2, b2, c2)]);
                    let x = (a2, b2, c2);
                    if nodos_v(viejos).contains(x) {
                        let w = choose|w: int| 0 <= w < nodos_v(viejos).len() && nodos_v(viejos)[w] == x;
                        assert(nodos_v(verts@)[w] == x);
                    }
                    if nodos_v(verts@).contains(x) {
                        let w = choose|w: int| 0 <= w < nodos_v(verts@).len() && nodos_v(verts@)[w] == x;
                        assert(w < viejos.len());
                        assert(nodos_v(viejos)[w] == x);
                    }
                }
            }
        }
        nuevo
    } else {
        proof {
            assert(nodos_v(viejos).contains(tv));
        }
        mapa[f]
    }
}

fn esquina_exec(e: usize) -> (r: (usize, usize, usize))
    requires
        e < 8,
    ensures
        nodo_v(r) == esquina(e as int),
{
    if e == 0 {
        (0, 0, 0)
    } else if e == 1 {
        (1, 0, 0)
    } else if e == 2 {
        (1, 1, 0)
    } else if e == 3 {
        (0, 1, 0)
    } else if e == 4 {
        (0, 0, 1)
    } else if e == 5 {
        (1, 0, 1)
    } else if e == 6 {
        (1, 1, 1)
    } else {
        (0, 1, 1)
    }
}

fn bucle_exec(l: usize) -> (r: Vec<usize>)
    requires
        l < 6,
    ensures
        r@.len() == 4,
        forall|m: int| 0 <= m < 4 ==> r@[m] as int == #[trigger] bucle_de_lado(l as int)[m] && r@[m] < 8,
{
    let r = if l == 0 {
        vec![0, 3, 2, 1]
    } else if l == 1 {
        vec![4, 5, 6, 7]
    } else if l == 2 {
        vec![0, 1, 5, 4]
    } else if l == 3 {
        vec![2, 3, 7, 6]
    } else if l == 4 {
        vec![1, 2, 6, 5]
    } else {
        vec![0, 4, 7, 3]
    };
    r
}

/// La posición de la celda (i, j, k) en la lista de ocupación.
fn indice(nx: usize, ny: usize, nz: usize, i: usize, j: usize, k: usize) -> (r: usize)
    requires
        i < nx,
        j < ny,
        k < nz,
        nx * ny * nz <= TOPE_DE_CELDAS,
    ensures
        r == indice_celda(ny as int, nz as int, i as int, j as int, k as int),
        r < nx * ny * nz,
{
    proof {
        lema_celda(nx as int, ny as int, nz as int, i as int, j as int, k as int);
        assert(i * ny + j <= (i * ny + j) * nz) by (nonlinear_arith)
            requires
                nz >= 1,
                i * ny + j >= 0,
        ;
        assert(i * ny <= i * ny + j);
    }
    (i * ny + j) * nz + k
}

/// ¿Está llena la celda vecina de (i, j, k) por el lado `l`?
fn vecino_lleno(nx: usize, ny: usize, nz: usize, oc: &Vec<Option<usize>>, i: usize, j: usize, k: usize, l: usize) -> (r: bool)
    requires
        i < nx,
        j < ny,
        k < nz,
        l < 6,
        oc@.len() == nx * ny * nz,
        nx * ny * nz <= TOPE_DE_CELDAS,
    ensures
        r == llena(
            nx as int,
            ny as int,
            nz as int,
            oc@,
            i + vecino(l as int).0,
            j + vecino(l as int).1,
            k + vecino(l as int).2,
        ),
{
    if l == 0 {
        k > 0 && oc[indice(nx, ny, nz, i, j, k - 1)].is_some()
    } else if l == 1 {
        k + 1 < nz && oc[indice(nx, ny, nz, i, j, k + 1)].is_some()
    } else if l == 2 {
        j > 0 && oc[indice(nx, ny, nz, i, j - 1, k)].is_some()
    } else if l == 3 {
        j + 1 < ny && oc[indice(nx, ny, nz, i, j + 1, k)].is_some()
    } else if l == 4 {
        i + 1 < nx && oc[indice(nx, ny, nz, i + 1, j, k)].is_some()
    } else {
        i > 0 && oc[indice(nx, ny, nz, i - 1, j, k)].is_some()
    }
}

/// Emite la cara del lado `l` de la celda (i, j, k), ocupada por `p`.
fn emitir_cara(
    out: &mut Vec<CaraDeRejilla>,
    verts: &mut Vec<(usize, usize, usize)>,
    mapa: &mut Vec<u32>,
    nx: usize,
    ny: usize,
    nz: usize,
    p: usize,
    l: usize,
    i: usize,
    j: usize,
    k: usize,
    Ghost(s): Ghost<Seq<CaraS>>,
)
    requires
        estado(old(out)@, old(verts)@, old(mapa)@, s, nx as int, ny as int, nz as int),
        i < nx,
        j < ny,
        k < nz,
        l < 6,
        4 * old(out)@.len() + 4 < u32::MAX,
        (nx + 1) * (ny + 1) * (nz + 1) <= usize::MAX,
    ensures
        estado(
            final(out)@,
            final(verts)@,
            final(mapa)@,
            s.push((p, l as int, (i as int, j as int, k as int), esquinas(l as int, i as int, j as int, k as int))),
            nx as int,
            ny as int,
            nz as int,
        ),
        final(out)@.len() == old(out)@.len() + 1,
{
    let ghost esq = esquinas(l as int, i as int, j as int, k as int);
    let ghost cara: CaraS = (p, l as int, (i as int, j as int, k as int), esq);
    let ghost flat = nodos_de(s);
    let ghost verts0 = verts@;
    let ghost out0 = out@;
    let locales = bucle_exec(l);
    let mut bucle: Vec<u32> = Vec::new();
    let mut m: usize = 0;
    assert(flat + esq.take(0) =~= flat);
    while m < 4
        invariant
            m <= 4,
            l < 6,
            i < nx,
            j < ny,
            k < nz,
            locales@.len() == 4,
            forall|q: int| 0 <= q < 4 ==> locales@[q] as int == #[trigger] bucle_de_lado(l as int)[q] && locales@[q] < 8,
            esq == esquinas(l as int, i as int, j as int, k as int),
            mapa_bien(mapa@, verts@, nx as int, ny as int, nz as int),
            nodos_v(verts@) == primeros(flat + esq.take(m as int)),
            verts0.len() <= verts@.len() <= verts0.len() + m,
            forall|q: int| 0 <= q < verts0.len() ==> verts@[q] == verts0[q],
            bucle@.len() == m,
            forall|q: int|
                0 <= q < m ==> (#[trigger] bucle@[q]) < verts@.len() && nodo_v(verts@[bucle@[q] as int]) == esq[q],
            out@ == out0,
            verts0.len() <= 4 * out0.len(),
            4 * out0.len() + 4 < u32::MAX,
            (nx + 1) * (ny + 1) * (nz + 1) <= usize::MAX,
        decreases 4 - m,
    {
        let e = locales[m];
        let (da, db, dc) = esquina_exec(e);
        assert(esq[m as int] == (i + da, j + db, k + dc));
        let ghost antes = verts@;
        let v = vertice(mapa, verts, nx, ny, nz, i + da, j + db, k + dc);
        proof {
            let x = flat + esq.take(m as int);
            assert(flat + esq.take(m + 1) =~= x.push(esq[m as int]));
            assert(x.push(esq[m as int]).drop_last() =~= x);
            assert forall|q: int| 0 <= q < m implies (#[trigger] bucle@[q]) < verts@.len() && nodo_v(
                verts@[bucle@[q] as int],
            ) == esq[q] by {
                assert(bucle@[q] < antes.len());
            }
        }
        bucle.push(v);
        m = m + 1;
    }
    out.push(CaraDeRejilla { pieza: p, lado: l, celda: (i, j, k), bucle });
    proof {
        let s2 = s.push(cara);
        assert(esq.take(4) =~= esq);
        assert(s2.drop_last() =~= s);
        assert(nodos_de(s2) == flat + esq);
        assert forall|q: int| 0 <= q < s2.len() implies describe(#[trigger] out@[q], s2[q], verts@) by {
            if q < s.len() {
                assert(out@[q] == out0[q]);
                lema_describe_crece(out0[q], s[q], verts0, verts@);
            } else {
                assert(out@[q].bucle@ == bucle@);
            }
        }
    }
}

/// Emite las caras de la celda (i, j, k), si está ocupada.
fn caras_de_la_celda(
    out: &mut Vec<CaraDeRejilla>,
    verts: &mut Vec<(usize, usize, usize)>,
    mapa: &mut Vec<u32>,
    nx: usize,
    ny: usize,
    nz: usize,
    oc: &Vec<Option<usize>>,
    i: usize,
    j: usize,
    k: usize,
    Ghost(s): Ghost<Seq<CaraS>>,
)
    requires
        estado(old(out)@, old(verts)@, old(mapa)@, s, nx as int, ny as int, nz as int),
        i < nx,
        j < ny,
        k < nz,
        oc@.len() == nx * ny * nz,
        nx * ny * nz <= TOPE_DE_CELDAS,
        4 * old(out)@.len() + 24 < u32::MAX,
        (nx + 1) * (ny + 1) * (nz + 1) <= usize::MAX,
    ensures
        estado(
            final(out)@,
            final(verts)@,
            final(mapa)@,
            s + caras_de_celda(nx as int, ny as int, nz as int, oc@, i as int, j as int, k as int),
            nx as int,
            ny as int,
            nz as int,
        ),
        final(out)@.len() <= old(out)@.len() + 6,
{
    let ghost (gx, gy, gz) = (nx as int, ny as int, nz as int);
    let ic = indice(nx, ny, nz, i, j, k);
    match oc[ic] {
        None => {
            assert(s + caras_de_celda(gx, gy, gz, oc@, i as int, j as int, k as int) =~= s);
        },
        Some(p) => {
            let ghost out0 = out@;
            let mut l: usize = 0;
            assert(s + lados(gx, gy, gz, oc@, i as int, j as int, k as int, p, 0) =~= s);
            while l < 6
                invariant
                    l <= 6,
                    i < nx,
                    j < ny,
                    k < nz,
                    oc@.len() == nx * ny * nz,
                    nx * ny * nz <= TOPE_DE_CELDAS,
                    (nx + 1) * (ny + 1) * (nz + 1) <= usize::MAX,
                    estado(
                        out@,
                        verts@,
                        mapa@,
                        s + lados(gx, gy, gz, oc@, i as int, j as int, k as int, p, l as int),
                        gx,
                        gy,
                        gz,
                    ),
                    out@.len() <= out0.len() + l,
                    4 * out0.len() + 24 < u32::MAX,
                    gx == nx,
                    gy == ny,
                    gz == nz,
                decreases 6 - l,
            {
                let ghost sl = s + lados(gx, gy, gz, oc@, i as int, j as int, k as int, p, l as int);
                if !vecino_lleno(nx, ny, nz, oc, i, j, k, l) {
                    emitir_cara(out, verts, mapa, nx, ny, nz, p, l, i, j, k, Ghost(sl));
                    assert(sl.push((p, l as int, (i as int, j as int, k as int), esquinas(l as int, i as int, j as int, k as int)))
                        =~= s + lados(gx, gy, gz, oc@, i as int, j as int, k as int, p, l + 1));
                } else {
                    assert(sl =~= s + lados(gx, gy, gz, oc@, i as int, j as int, k as int, p, l + 1));
                }
                l = l + 1;
            }
        },
    }
}

/// La frontera de la unión de las piezas que ocupan una rejilla de `nx` × `ny`
/// × `nz` celdas: `oc` dice qué pieza ocupa cada celda, por su posición
/// `(i * ny + j) * nz + k`. Una unión sin ninguna cara es un error.
pub fn frontera_de_rejilla(nx: usize, ny: usize, nz: usize, oc: &Vec<Option<usize>>) -> (r: Result<
    Frontera,
    KernelError,
>)
    requires
        oc@.len() == nx * ny * nz,
        nx * ny * nz <= TOPE_DE_CELDAS,
        (nx + 1) * (ny + 1) * (nz + 1) <= usize::MAX,
    ensures
        r is Err <==> caras_de_rejilla(nx as int, ny as int, nz as int, oc@).len() == 0,
        r matches Err(e) ==> (e matches KernelError::Degenerate { hint } && hint@ == mensaje_vacio()),
        r matches Ok(f) ==> frontera_de(f, nx as int, ny as int, nz as int, oc@),
{
    let ghost (gx, gy, gz) = (nx as int, ny as int, nz as int);
    proof {
        assert((nx + 1) * (ny + 1) <= (nx + 1) * (ny + 1) * (nz + 1)) by (nonlinear_arith);
        assert(nx + 1 <= (nx + 1) * (ny + 1)) by (nonlinear_arith);
        assert(ny + 1 <= (nx + 1) * (ny + 1)) by (nonlinear_arith);
        assert(nz + 1 <= (nx + 1) * (ny + 1) * (nz + 1)) by (nonlinear_arith);
    }
    let total = (nx + 1) * (ny + 1) * (nz + 1);
    let mut mapa: Vec<u32> = Vec::new();
    while mapa.len() < total
        invariant
            mapa@.len() <= total,
            forall|q: int| 0 <= q < mapa@.len() ==> mapa@[q] == u32::MAX,
        decreases total - mapa@.len(),
    {
        mapa.push(u32::MAX);
    }
    let mut out: Vec<CaraDeRejilla> = Vec::new();
    let mut verts: Vec<(usize, usize, usize)> = Vec::new();
    proof {
        assert forall|a: int, b: int, c: int| 0 <= a <= gx && 0 <= b <= gy && 0 <= c <= gz implies {
            let v = #[trigger] mapa@[indice_nodo_rejilla(gy, gz, a, b, c)];
            &&& (v == u32::MAX <==> !nodos_v(verts@).contains((a, b, c)))
            &&& (v != u32::MAX ==> v < verts@.len() && nodo_v(verts@[v as int]) == (a, b, c))
        } by {
            lema_nodo(gx, gy, gz, a, b, c);
        }
        assert(nodos_de(Seq::<CaraS>::empty()) =~= Seq::empty());
        assert(nodos_v(verts@) =~= Seq::empty());
        assert(primeros(Seq::<(int, int, int)>::empty()) =~= Seq::empty());
        assert(mapa@.len() == total);
        assert(caras_hasta(gx, gy, gz, oc@, 0) =~= Seq::empty());
    }
    let mut i: usize = 0;
    while i < nx
        invariant
            i <= nx,
            oc@.len() == nx * ny * nz,
            nx * ny * nz <= TOPE_DE_CELDAS,
            (nx + 1) * (ny + 1) * (nz + 1) <= usize::MAX,
            gx == nx,
            gy == ny,
            gz == nz,
            estado(out@, verts@, mapa@, caras_hasta(gx, gy, gz, oc@, i as int), gx, gy, gz),
            out@.len() <= 6 * indice_celda(gy, gz, i as int, 0, 0),
        decreases nx - i,
    {
        let mut j: usize = 0;
        assert(caras_hasta(gx, gy, gz, oc@, i as int) + caras_de_capa(gx, gy, gz, oc@, i as int, 0) =~= caras_hasta(
            gx,
            gy,
            gz,
            oc@,
            i as int,
        ));
        while j < ny
            invariant
                i < nx,
                j <= ny,
                oc@.len() == nx * ny * nz,
                nx * ny * nz <= TOPE_DE_CELDAS,
                (nx + 1) * (ny + 1) * (nz + 1) <= usize::MAX,
                gx == nx,
                gy == ny,
                gz == nz,
                estado(
                    out@,
                    verts@,
                    mapa@,
                    caras_hasta(gx, gy, gz, oc@, i as int) + caras_de_capa(gx, gy, gz, oc@, i as int, j as int),
                    gx,
                    gy,
                    gz,
                ),
                out@.len() <= 6 * indice_celda(gy, gz, i as int, j as int, 0),
            decreases ny - j,
        {
            let ghost base = caras_hasta(gx, gy, gz, oc@, i as int) + caras_de_capa(gx, gy, gz, oc@, i as int, j as int);
            let mut k: usize = 0;
            assert(base + caras_de_fila(gx, gy, gz, oc@, i as int, j as int, 0) =~= base);
            while k < nz
                invariant
                    i < nx,
                    j < ny,
                    k <= nz,
                    oc@.len() == nx * ny * nz,
                    nx * ny * nz <= TOPE_DE_CELDAS,
                    (nx + 1) * (ny + 1) * (nz + 1) <= usize::MAX,
                    gx == nx,
                    gy == ny,
                    gz == nz,
                    base == caras_hasta(gx, gy, gz, oc@, i as int) + caras_de_capa(gx, gy, gz, oc@, i as int, j as int),
                    estado(
                        out@,
                        verts@,
                        mapa@,
                        base + caras_de_fila(gx, gy, gz, oc@, i as int, j as int, k as int),
                        gx,
                        gy,
                        gz,
                    ),
                    out@.len() <= 6 * indice_celda(gy, gz, i as int, j as int, k as int),
                decreases nz - k,
            {
                proof {
                    lema_celda(gx, gy, gz, i as int, j as int, k as int);
                }
                let ghost sk = base + caras_de_fila(gx, gy, gz, oc@, i as int, j as int, k as int);
                caras_de_la_celda(&mut out, &mut verts, &mut mapa, nx, ny, nz, oc, i, j, k, Ghost(sk));
                assert(sk + caras_de_celda(gx, gy, gz, oc@, i as int, j as int, k as int) =~= base + caras_de_fila(
                    gx,
                    gy,
                    gz,
                    oc@,
                    i as int,
                    j as int,
                    k + 1,
                ));
                k = k + 1;
            }
            proof {
                assert(indice_celda(gy, gz, i as int, j as int, gz) == indice_celda(gy, gz, i as int, j + 1, 0))
                    by (nonlinear_arith);
                assert(base + caras_de_fila(gx, gy, gz, oc@, i as int, j as int, gz) =~= caras_hasta(
                    gx,
                    gy,
                    gz,
                    oc@,
                    i as int,
                ) + caras_de_capa(gx, gy, gz, oc@, i as int, j + 1));
            }
            j = j + 1;
        }
        proof {
            assert(indice_celda(gy, gz, i as int, gy, 0) == indice_celda(gy, gz, i + 1, 0, 0)) by (nonlinear_arith);
        }
        i = i + 1;
    }
    if out.len() == 0 {
        Err(KernelError::Degenerate { hint: String::from_str("el resultado del booleano es vacio") })
    } else {
        Ok(Frontera { caras: out, nodos: verts })
    }
}

} // verus!
