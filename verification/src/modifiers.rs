//! Pila de modificadores no destructivos.
//!
//! Todo modificador debe propagar la procedencia a la geometría que crea. No se
//! hace cumplir con una firma —un no-op compila igual de bien—, sino con
//! [`verificar_propagacion`], que la pila llama después de cada paso.

use vstd::prelude::*;
use vstd::string::StringSliceAdditionalSpecFns;

use crate::hash::{bytes_le, fnv_desde, mezclar, a_bytes_le, lema_fnv_concat, FNV_BASE};
use crate::ids::StableId;
use crate::texto::{anadir, de_caracteres, decimal, empujar_decimal};
use crate::mesh::{bucles, copia_vec, defecto_de_cara, medias, primer_defecto, Corrupcion, Face, Mesh, MeshError, ProvenanceMap};

verus! {

/// Ninguna cara sin vértices: lo que un modificador puede pedir de su entrada.
pub open spec fn caras_no_vacias(m: &Mesh) -> bool {
    forall|i: int| 0 <= i < m.faces@.len() ==> m.faces@[i].verts@.len() > 0
}

/// Un paso de la pila. Lo implementan los usuarios de la biblioteca.
///
/// Cada modificador declara, en espejo, su tipo, la clave de sus parámetros y
/// la relación entre lo que recibe y lo que devuelve; la pila se especifica
/// sobre esas declaraciones y comprueba por su cuenta lo que puede comprobar.
pub trait Modifier {
    /// El tipo que devuelve `kind`.
    spec fn tipo(&self) -> &'static str;

    /// La clave que devuelve `params_hash`.
    spec fn clave_params(&self) -> u64;

    /// `salida` es un resultado posible de aplicar el modificador a
    /// `entrada`. Quien no declara nada admite cualquier resultado.
    open spec fn produce(&self, entrada: Mesh, salida: Result<Mesh, MeshError>) -> bool {
        true
    }

    /// Nombre estable del tipo de modificador.
    fn kind(&self) -> (r: &'static str)
        ensures
            r == self.tipo(),
    ;

    /// Hash de los parámetros propios. Junto con el del tipo forma la clave de
    /// caché del nodo.
    fn params_hash(&self) -> (r: u64)
        ensures
            r == self.clave_params(),
    ;

    fn apply(&self, input: &Mesh) -> (r: Result<Mesh, MeshError>)
        requires
            caras_no_vacias(input),
        ensures
            self.produce(*input, r),
    ;
}

proof fn lema_sin_defecto(c: Seq<Seq<u32>>, n: u32, k: int)
    requires
        0 <= k,
        primer_defecto(c, n, k) is None,
    ensures
        forall|i: int| k <= i < c.len() ==> defecto_de_cara(c[i], i, n) is None,
    decreases c.len() - k,
{
    if k < c.len() {
        lema_sin_defecto(c, n, k + 1);
    }
}

/// Una malla válida no tiene caras vacías.
proof fn lema_valida_no_vacias(m: &Mesh)
    requires
        m.valida(),
    ensures
        caras_no_vacias(m),
{
    lema_sin_defecto(m.caras(), m.tope(), 0);
    assert forall|i: int| 0 <= i < m.faces@.len() implies m.faces@[i].verts@.len() > 0 by {
        assert(m.caras()[i] == m.faces@[i].verts@);
        assert(defecto_de_cara(m.caras()[i], i, m.tope()) is None);
    }
}

/// Cuántas caras no tienen procedencia.
pub open spec fn perdidas(s: Seq<Option<StableId>>) -> nat
    decreases s.len(),
{
    if s.len() == 0 {
        0
    } else {
        perdidas(s.drop_last()) + if s.last() is None {
            1nat
        } else {
            0nat
        }
    }
}

/// Todas las caras conservan procedencia.
pub open spec fn completa(s: Seq<Option<StableId>>) -> bool {
    forall|i: int| 0 <= i < s.len() ==> s[i] is Some
}

proof fn lema_perdidas_cero(s: Seq<Option<StableId>>)
    ensures
        perdidas(s) == 0 <==> completa(s),
    decreases s.len(),
{
    if s.len() > 0 {
        lema_perdidas_cero(s.drop_last());
        if completa(s) {
            assert(completa(s.drop_last()));
        }
        if perdidas(s) == 0 {
            assert forall|i: int| 0 <= i < s.len() implies s[i] is Some by {
                if i < s.len() - 1 {
                    assert(s[i] == s.drop_last()[i]);
                }
            }
        }
    }
}

/// Cuenta las caras sin procedencia.
fn contar_perdidas(s: &Vec<Option<StableId>>) -> (r: usize)
    ensures
        r == perdidas(s@),
{
    let mut n: usize = 0;
    let mut i: usize = 0;
    assert(s@.take(0) =~= Seq::<Option<StableId>>::empty());
    while i < s.len()
        invariant
            i <= s@.len(),
            n == perdidas(s@.take(i as int)),
            n <= i,
        decreases s@.len() - i,
    {
        assert(s@.take(i + 1).drop_last() =~= s@.take(i as int));
        if s[i].is_none() {
            n = n + 1;
        }
        i = i + 1;
    }
    assert(s@.take(s@.len() as int) =~= s@);
    n
}

/// Comprueba que un modificador no perdió procedencia.
///
/// Si la entrada ya venía con caras sin procedencia, no se le exige nada a la
/// salida. Si venía completa, cada cara de la salida sin procedencia cuenta
/// como pérdida.
pub fn verificar_propagacion(kind: &'static str, entrada: &Mesh, salida: &Mesh) -> (r: Result<
    (),
    MeshError,
>)
    ensures
        r is Ok <==> (!completa(entrada.prov.face_origin@) || completa(salida.prov.face_origin@)),
        r is Err ==> r == Err::<(), MeshError>(
            MeshError::ProcedenciaPerdida(
                kind,
                perdidas(salida.prov.face_origin@) as usize,
                salida.faces@.len() as usize,
            ),
        ),
{
    let previas = contar_perdidas(&entrada.prov.face_origin);
    proof {
        lema_perdidas_cero(entrada.prov.face_origin@);
        lema_perdidas_cero(salida.prov.face_origin@);
    }
    if previas > 0 {
        return Ok(());
    }
    let n = contar_perdidas(&salida.prov.face_origin);
    if n > 0 {
        return Err(MeshError::ProcedenciaPerdida(kind, n, salida.faces.len()));
    }
    Ok(())
}

/// Los bytes que la pila mezcla por cada modificador: el tipo, un separador y
/// el hash de los parámetros.
pub open spec fn bytes_de_paso(p: (Seq<u8>, u64)) -> Seq<u8> {
    p.0 + seq![0u8] + bytes_le(p.1)
}

/// Los bytes de toda la pila, en orden.
pub open spec fn bytes_de_pila(s: Seq<(Seq<u8>, u64)>) -> Seq<u8>
    decreases s.len(),
{
    if s.len() == 0 {
        Seq::empty()
    } else {
        bytes_de_pila(s.drop_last()) + bytes_de_paso(s.last())
    }
}

/// `e` es un error que `validate` puede dar para `m`: el primer defecto
/// previo, o una media arista repetida.
pub open spec fn error_de_validacion(m: &Mesh, e: MeshError) -> bool {
    match m.defecto_previo() {
        Some(d) => e == MeshError::Corrupta(d),
        None => e matches MeshError::Corrupta(Corrupcion::MediaArista { a, b }) && exists|i: int, j: int|
            0 <= i < j < medias(m.caras()).len() && medias(m.caras())[i] == (a, b) && medias(
                m.caras(),
            )[j] == (a, b),
    }
}

/// Lo que la pila hace con la salida `salida` de un paso de tipo `tipo` que
/// recibió `actual`: propaga su error; si no, valida la malla; si no, exige
/// que no haya perdido procedencia cuando la entrada la tenía completa.
pub open spec fn paso_comprobado(
    tipo: &'static str,
    actual: Mesh,
    salida: Result<Mesh, MeshError>,
    r: Result<Mesh, MeshError>,
) -> bool {
    match salida {
        Err(e) => r == Err::<Mesh, MeshError>(e),
        Ok(o) => if !o.valida() {
            r matches Err(e) && error_de_validacion(&o, e)
        } else if completa(actual.prov.face_origin@) && !completa(o.prov.face_origin@) {
            r == Err::<Mesh, MeshError>(
                MeshError::ProcedenciaPerdida(tipo, perdidas(o.prov.face_origin@) as usize, o.faces@.len() as usize),
            )
        } else {
            r == Ok::<Mesh, MeshError>(o)
        },
    }
}

/// Comprueba la salida de un paso: su error, la validez de la malla y la
/// propagación de la procedencia, en ese orden.
pub fn comprobar_paso(tipo: &'static str, actual: &Mesh, salida: Result<Mesh, MeshError>) -> (r: Result<
    Mesh,
    MeshError,
>)
    ensures
        paso_comprobado(tipo, *actual, salida, r),
{
    let o = match salida {
        Ok(o) => o,
        Err(e) => {
            return Err(e);
        },
    };
    match o.validate() {
        Ok(()) => {},
        Err(e) => {
            return Err(e);
        },
    }
    match verificar_propagacion(tipo, actual, &o) {
        Ok(()) => {},
        Err(e) => {
            return Err(e);
        },
    }
    Ok(o)
}

/// Un paso de la pila visto desde fuera: qué resultados puede dar.
pub type Relacion = spec_fn(Mesh, Result<Mesh, MeshError>) -> bool;

/// Un paso de una traza: si lo anterior ya era un error, sigue siéndolo; si
/// no, el paso recibió `a`, devolvió `salida`, y la pila la comprobó.
pub open spec fn paso_de_traza(
    f: Relacion,
    tipo: &'static str,
    previo: Result<Mesh, MeshError>,
    salida: Result<Mesh, MeshError>,
    siguiente: Result<Mesh, MeshError>,
) -> bool {
    match previo {
        Err(e) => siguiente == Err::<Mesh, MeshError>(e),
        Ok(a) => f(a, salida) && paso_comprobado(tipo, a, salida, siguiente),
    }
}

/// Una ejecución de la pila: `antes[k]` es lo que había al llegar al paso
/// `k` (la malla que recibe, o el error que ya cortó la cadena) y
/// `salidas[k]` lo que devolvió el paso. El primero recibe `entrada`.
pub open spec fn traza(
    rels: Seq<Relacion>,
    tipos: Seq<&'static str>,
    entrada: Mesh,
    antes: Seq<Result<Mesh, MeshError>>,
    salidas: Seq<Result<Mesh, MeshError>>,
) -> bool {
    &&& tipos.len() == rels.len()
    &&& antes.len() == rels.len() + 1
    &&& salidas.len() == rels.len()
    &&& antes[0] == Ok::<Mesh, MeshError>(entrada)
    &&& forall|k: int|
        0 <= k < rels.len() ==> #[trigger] paso_de_traza(rels[k], tipos[k], antes[k], salidas[k], antes[k + 1])
}

/// `r` es un resultado posible de aplicar, en orden, los pasos de relaciones
/// `rels` y tipos `tipos` a `entrada`: el primero recibe `entrada`, cada uno
/// recibe la salida comprobada del anterior, y el primer error corta.
pub open spec fn pila_produce(rels: Seq<Relacion>, tipos: Seq<&'static str>, entrada: Mesh, r: Result<
    Mesh,
    MeshError,
>) -> bool {
    exists|antes: Seq<Result<Mesh, MeshError>>, salidas: Seq<Result<Mesh, MeshError>>|
        #[trigger] traza(rels, tipos, entrada, antes, salidas) && antes.last() == r
}

/// Sin pasos, lo que sale es la entrada.
proof fn lema_sin_pasos(entrada: Mesh)
    ensures
        pila_produce(Seq::empty(), Seq::empty(), entrada, Ok::<Mesh, MeshError>(entrada)),
{
    let antes = seq![Ok::<Mesh, MeshError>(entrada)];
    let salidas = Seq::<Result<Mesh, MeshError>>::empty();
    assert(traza(Seq::empty(), Seq::empty(), entrada, antes, salidas));
}

/// Un paso más sobre un resultado previo posible da un resultado posible.
proof fn lema_un_paso_mas(
    rels: Seq<Relacion>,
    tipos: Seq<&'static str>,
    entrada: Mesh,
    previo: Result<Mesh, MeshError>,
    salida: Result<Mesh, MeshError>,
    r: Result<Mesh, MeshError>,
)
    requires
        rels.len() > 0,
        tipos.len() == rels.len(),
        pila_produce(rels.drop_last(), tipos.drop_last(), entrada, previo),
        paso_de_traza(rels.last(), tipos.last(), previo, salida, r),
    ensures
        pila_produce(rels, tipos, entrada, r),
{
    let (antes, salidas) = choose|antes: Seq<Result<Mesh, MeshError>>, salidas: Seq<Result<Mesh, MeshError>>|
        #[trigger] traza(rels.drop_last(), tipos.drop_last(), entrada, antes, salidas) && antes.last() == previo;
    let n = rels.len() - 1;
    let a2 = antes.push(r);
    let s2 = salidas.push(salida);
    assert forall|k: int| 0 <= k < rels.len() implies #[trigger] paso_de_traza(
        rels[k],
        tipos[k],
        a2[k],
        s2[k],
        a2[k + 1],
    ) by {
        if k < n {
            assert(rels[k] == rels.drop_last()[k]);
            assert(tipos[k] == tipos.drop_last()[k]);
            assert(paso_de_traza(rels.drop_last()[k], tipos.drop_last()[k], antes[k], salidas[k], antes[k + 1]));
        }
    }
    assert(traza(rels, tipos, entrada, a2, s2));
}

/// Los pasos de una pila, del primero al último.
pub trait Pasos {
    /// Lo que puede devolver cada paso, en orden.
    spec fn relaciones(&self) -> Seq<Relacion>;

    /// El tipo de cada paso, en orden.
    spec fn tipos(&self) -> Seq<&'static str>;

    /// Aplica los pasos en orden; sin pasos no hay nada que aplicar.
    fn aplicar(&self, entrada: &Mesh) -> (r: Option<Result<Mesh, MeshError>>)
        requires
            caras_no_vacias(entrada),
        ensures
            self.tipos().len() == self.relaciones().len(),
            self.relaciones().len() == 0 <==> r is None,
            r matches Some(x) ==> pila_produce(self.relaciones(), self.tipos(), *entrada, x),
            r matches Some(Ok(m)) ==> m.valida() && (completa(entrada.prov.face_origin@) ==> completa(
                m.prov.face_origin@,
            )),
    ;
}

/// Ningún paso.
pub struct SinPasos;

impl Pasos for SinPasos {
    open spec fn relaciones(&self) -> Seq<Relacion> {
        Seq::empty()
    }

    open spec fn tipos(&self) -> Seq<&'static str> {
        Seq::empty()
    }

    fn aplicar(&self, entrada: &Mesh) -> (r: Option<Result<Mesh, MeshError>>) {
        None
    }
}

/// Los pasos `previos` y, después, `ultimo`.
pub struct Apilado<P, M> {
    pub previos: P,
    pub ultimo: M,
}

impl<P: Pasos, M: Modifier> Pasos for Apilado<P, M> {
    open spec fn relaciones(&self) -> Seq<Relacion> {
        self.previos.relaciones().push(|e: Mesh, o: Result<Mesh, MeshError>| self.ultimo.produce(e, o))
    }

    open spec fn tipos(&self) -> Seq<&'static str> {
        self.previos.tipos().push(self.ultimo.tipo())
    }

    fn aplicar(&self, entrada: &Mesh) -> (r: Option<Result<Mesh, MeshError>>) {
        let ghost rels = self.relaciones();
        let ghost tipos = self.tipos();
        let previo = self.previos.aplicar(entrada);
        proof {
            assert(rels.drop_last() =~= self.previos.relaciones());
            assert(tipos.drop_last() =~= self.previos.tipos());
        }
        match previo {
            None => {
                let s = self.ultimo.apply(entrada);
                let k = self.ultimo.kind();
                let r = comprobar_paso(k, entrada, s);
                proof {
                    lema_perdidas_cero(entrada.prov.face_origin@);
                    lema_sin_pasos(*entrada);
                    assert(rels.drop_last() =~= Seq::<Relacion>::empty());
                    assert(tipos.drop_last() =~= Seq::<&'static str>::empty());
                    assert((rels.last())(*entrada, s));
                    lema_un_paso_mas(rels, tipos, *entrada, Ok::<Mesh, MeshError>(*entrada), s, r);
                }
                Some(r)
            },
            Some(Err(e)) => {
                proof {
                    lema_un_paso_mas(rels, tipos, *entrada, Err::<Mesh, MeshError>(e), Err::<Mesh, MeshError>(e), Err::<Mesh, MeshError>(e));
                }
                Some(Err(e))
            },
            Some(Ok(a)) => {
                proof {
                    lema_valida_no_vacias(&a);
                }
                let s = self.ultimo.apply(&a);
                let k = self.ultimo.kind();
                let r = comprobar_paso(k, &a, s);
                proof {
                    assert((rels.last())(a, s));
                    lema_un_paso_mas(rels, tipos, *entrada, Ok::<Mesh, MeshError>(a), s, r);
                }
                Some(r)
            },
        }
    }
}

/// Una pila ordenada de modificadores.
pub struct ModifierStack<P: Pasos> {
    pasos: P,
    /// El tipo y la clave de cada paso, leídos al apilarlo.
    claves: Vec<(&'static str, u64)>,
}

impl ModifierStack<SinPasos> {
    pub fn new() -> (r: ModifierStack<SinPasos>)
        ensures
            r.modelo() == Seq::<(Seq<u8>, u64)>::empty(),
            r.tipos() == Seq::<&'static str>::empty(),
            r.relaciones() == Seq::<Relacion>::empty(),
    {
        let r = ModifierStack { pasos: SinPasos, claves: Vec::new() };
        assert(r.modelo() =~= Seq::<(Seq<u8>, u64)>::empty());
        r
    }
}

impl<P: Pasos> ModifierStack<P> {
    #[verifier::type_invariant]
    spec fn bien_formada(&self) -> bool {
        &&& self.pasos.tipos().len() == self.claves@.len()
        &&& forall|i: int| 0 <= i < self.claves@.len() ==> #[trigger] self.pasos.tipos()[i] == self.claves@[i].0
    }

    /// Lo que la pila sabe de cada paso: su tipo y la clave de sus parámetros.
    pub closed spec fn modelo(&self) -> Seq<(Seq<u8>, u64)> {
        Seq::new(self.claves@.len(), |i: int| (self.claves@[i].0.spec_bytes(), self.claves@[i].1))
    }

    /// El tipo de cada paso, en orden.
    pub closed spec fn tipos(&self) -> Seq<&'static str> {
        self.pasos.tipos()
    }

    /// Lo que puede devolver cada paso, en orden.
    pub closed spec fn relaciones(&self) -> Seq<Relacion> {
        self.pasos.relaciones()
    }

    /// Añade un paso al final, con el tipo y la clave que el modificador
    /// declara en ese momento. La pila lo aplicará el último.
    pub fn push<M: Modifier>(self, m: M) -> (r: ModifierStack<Apilado<P, M>>)
        ensures
            r.modelo() == self.modelo().push((m.tipo().spec_bytes(), m.clave_params())),
            r.tipos() == self.tipos().push(m.tipo()),
            r.relaciones() == self.relaciones().push(
                |e: Mesh, o: Result<Mesh, MeshError>| m.produce(e, o),
            ),
    {
        proof {
            use_type_invariant(&self);
        }
        let k = m.kind();
        let p = m.params_hash();
        let ModifierStack { pasos, claves } = self;
        let mut c = claves;
        c.push((k, p));
        let r = ModifierStack { pasos: Apilado { previos: pasos, ultimo: m }, claves: c };
        assert(r.modelo() =~= self.modelo().push((m.tipo().spec_bytes(), m.clave_params())));
        r
    }

    pub fn len(&self) -> (r: usize)
        ensures
            r == self.modelo().len(),
            r == self.tipos().len(),
    {
        proof {
            use_type_invariant(self);
        }
        self.claves.len()
    }

    pub fn is_empty(&self) -> (r: bool)
        ensures
            r == (self.modelo().len() == 0),
    {
        self.claves.len() == 0
    }

    /// Clave de caché de la pila entera.
    ///
    /// Mezcla el tipo de cada modificador, un separador y su hash de
    /// parámetros: dos modificadores de tipos distintos cuyos parámetros
    /// hashean igual no comparten clave. El orden importa.
    pub fn params_hash(&self) -> (r: u64)
        ensures
            r == fnv_desde(FNV_BASE, bytes_de_pila(self.modelo())),
    {
        let mut h = FNV_BASE;
        let mut i: usize = 0;
        assert(self.modelo().take(0) =~= Seq::<(Seq<u8>, u64)>::empty());
        while i < self.claves.len()
            invariant
                i <= self.claves@.len(),
                h == fnv_desde(FNV_BASE, bytes_de_pila(self.modelo().take(i as int))),
            decreases self.claves@.len() - i,
        {
            let (k, p) = self.claves[i];
            let ghost previo = bytes_de_pila(self.modelo().take(i as int));
            let ghost paso = self.modelo()[i as int];
            proof {
                assert(self.modelo().take(i + 1).drop_last() =~= self.modelo().take(i as int));
                assert(self.modelo().take(i + 1).last() == paso);
                lema_fnv_concat(FNV_BASE, previo, paso.0);
                lema_fnv_concat(FNV_BASE, previo + paso.0, seq![0u8]);
                lema_fnv_concat(FNV_BASE, previo + paso.0 + seq![0u8], bytes_le(paso.1));
                assert(previo + bytes_de_paso(paso) =~= previo + paso.0 + seq![0u8] + bytes_le(
                    paso.1,
                ));
            }
            h = mezclar(h, k.as_bytes());
            let sep: [u8; 1] = [0u8];
            assert(sep@ =~= seq![0u8]);
            h = mezclar(h, &sep);
            let b = a_bytes_le(p);
            h = mezclar(h, &b);
            i = i + 1;
        }
        assert(self.modelo().take(self.claves@.len() as int) =~= self.modelo());
        h
    }

    /// Aplica la pila.
    ///
    /// El primer paso recibe `entrada` y cada uno la salida del anterior.
    /// Después de cada paso valida la malla y la propagación de procedencia,
    /// así un fallo señala al modificador que lo causó, y a partir de ahí no
    /// se llama a ningún paso más. Con la pila vacía devuelve una copia de la
    /// entrada.
    pub fn apply(&self, entrada: &Mesh) -> (r: Result<Mesh, MeshError>)
        requires
            caras_no_vacias(entrada),
        ensures
            self.modelo().len() == 0 ==> (r matches Ok(m) && m.igual_a(entrada)),
            self.modelo().len() > 0 ==> pila_produce(self.relaciones(), self.tipos(), *entrada, r),
            r matches Ok(m) ==> (self.modelo().len() > 0 ==> m.valida()) && (completa(
                entrada.prov.face_origin@,
            ) ==> completa(m.prov.face_origin@)),
    {
        proof {
            use_type_invariant(self);
        }
        match self.pasos.aplicar(entrada) {
            None => Ok(entrada.copia()),
            Some(r) => r,
        }
    }
}

/// Los triángulos en abanico de un bucle: `(v0, vk, vk+1)`.
pub open spec fn abanico_de(f: Seq<u32>) -> Seq<Seq<u32>> {
    Seq::new(
        if f.len() >= 2 {
            (f.len() - 2) as nat
        } else {
            0
        },
        |k: int| seq![f[0], f[k + 1], f[k + 2]],
    )
}

/// Todos los triángulos en abanico, cara a cara y en orden.
pub open spec fn abanico(c: Seq<Seq<u32>>) -> Seq<Seq<u32>>
    decreases c.len(),
{
    if c.len() == 0 {
        Seq::empty()
    } else {
        abanico(c.drop_last()) + abanico_de(c.last())
    }
}

/// La procedencia de la cara `i`, o ninguna si el mapa es más corto.
pub open spec fn origen_de(p: Seq<Option<StableId>>, i: int) -> Option<StableId> {
    if 0 <= i < p.len() {
        p[i]
    } else {
        None
    }
}

/// La procedencia de cada triángulo: la de la cara de la que sale.
pub open spec fn origen_abanico(c: Seq<Seq<u32>>, p: Seq<Option<StableId>>) -> Seq<Option<StableId>>
    decreases c.len(),
{
    if c.len() == 0 {
        Seq::empty()
    } else {
        origen_abanico(c.drop_last(), p) + Seq::new(
            abanico_de(c.last()).len(),
            |k: int| origen_de(p, c.len() - 1),
        )
    }
}

/// Triangula por abanico. Correcto para caras convexas.
pub struct Triangulate;

impl Triangulate {
    /// El abanico de una malla, con la procedencia de cada cara repetida en
    /// sus triángulos.
    pub fn triangular(&self, input: &Mesh) -> (r: Mesh)
        ensures
            r.positions@ == input.positions@,
            r.normals@ == input.normals@,
            r.uvs@ == input.uvs@,
            r.caras() == abanico(input.caras()),
            r.prov.face_origin@ == origen_abanico(input.caras(), input.prov.face_origin@),
    {
        let mut faces: Vec<Face> = Vec::new();
        let mut prov: Vec<Option<StableId>> = Vec::new();
        let mut fi: usize = 0;
        let ghost c = input.caras();
        let ghost p = input.prov.face_origin@;
        assert(c.take(0) =~= Seq::<Seq<u32>>::empty());
        assert(bucles(faces@) =~= Seq::<Seq<u32>>::empty());
        while fi < input.faces.len()
            invariant
                c == input.caras(),
                p == input.prov.face_origin@,
                fi <= input.faces@.len(),
                bucles(faces@) == abanico(c.take(fi as int)),
                prov@ == origen_abanico(c.take(fi as int), p),
            decreases input.faces@.len() - fi,
        {
            let f = &input.faces[fi].verts;
            let origen = if fi < input.prov.face_origin.len() {
                input.prov.face_origin[fi]
            } else {
                None
            };
            let n = f.len();
            let tope: usize = if n >= 2 { n - 2 } else { 0 };
            let ghost caras0 = bucles(faces@);
            let ghost prov0 = prov@;
            assert(c[fi as int] == f@);
            let mut k: usize = 0;
            assert(abanico_de(f@).take(0) =~= Seq::<Seq<u32>>::empty());
            while k < tope
                invariant
                    n == f@.len(),
                    tope == abanico_de(f@).len(),
                    k <= tope,
                    bucles(faces@) == caras0 + abanico_de(f@).take(k as int),
                    prov@ == prov0 + Seq::new(k as nat, |j: int| origen),
                decreases tope - k,
            {
                let t = vec![f[0], f[k + 1], f[k + 2]];
                assert(t@ == abanico_de(f@)[k as int]);
                let ghost antes = faces@;
                faces.push(Face { verts: t });
                prov.push(origen);
                proof {
                    assert(bucles(faces@) =~= bucles(antes).push(t@));
                    assert(abanico_de(f@).take(k + 1) =~= abanico_de(f@).take(k as int).push(t@));
                }
                k = k + 1;
                assert(prov@ =~= prov0 + Seq::new(k as nat, |j: int| origen));
            }
            proof {
                assert(abanico_de(f@).take(tope as int) =~= abanico_de(f@));
                assert(c.take(fi + 1).drop_last() =~= c.take(fi as int));
                assert(c.take(fi + 1).last() == f@);
                assert(c.take(fi + 1).len() - 1 == fi);
                assert(origen == origen_de(p, fi as int));
                assert(Seq::new(tope as nat, |j: int| origen) =~= Seq::new(
                    abanico_de(c.take(fi + 1).last()).len(),
                    |j: int| origen_de(p, c.take(fi + 1).len() - 1),
                ));
            }
            fi = fi + 1;
        }
        assert(c.take(input.faces@.len() as int) =~= c);
        Mesh {
            positions: copia_vec(&input.positions),
            normals: copia_vec(&input.normals),
            uvs: copia_vec(&input.uvs),
            faces,
            prov: ProvenanceMap { face_origin: prov },
        }
    }
}

impl Modifier for Triangulate {
    open spec fn tipo(&self) -> &'static str {
        "triangulate"
    }

    open spec fn clave_params(&self) -> u64 {
        0x7A1
    }

    /// El abanico de la entrada, con la procedencia de cada cara repetida.
    open spec fn produce(&self, input: Mesh, r: Result<Mesh, MeshError>) -> bool {
        r matches Ok(m) && m.positions@ == input.positions@ && m.normals@ == input.normals@
            && m.uvs@ == input.uvs@ && m.caras() == abanico(input.caras())
            && m.prov.face_origin@ == origen_abanico(input.caras(), input.prov.face_origin@)
    }

    fn kind(&self) -> (r: &'static str)
        ensures
            r@ == "triangulate"@,
    {
        "triangulate"
    }

    fn params_hash(&self) -> (r: u64)
        ensures
            r == 0x7A1,
    {
        0x7A1
    }

    fn apply(&self, input: &Mesh) -> (r: Result<Mesh, MeshError>)
        ensures
            r matches Ok(m) && m.positions@ == input.positions@ && m.normals@ == input.normals@
                && m.uvs@ == input.uvs@ && m.caras() == abanico(input.caras())
                && m.prov.face_origin@ == origen_abanico(input.caras(), input.prov.face_origin@),
    {
        Ok(self.triangular(input))
    }
}


/// Tope de niveles de subdivisión.
pub const MAX_NIVELES: u32 = 6;

/// Por qué se rechazan `n` niveles de subdivisión.
pub open spec fn mensaje_niveles(n: u32) -> Seq<char> {
    decimal(n as nat) + " niveles es demasiado. El primero convierte cada n-gono en n cuadrilateros -- no en 4, eso solo vale si la malla ya era de cuadrilateros -- y a partir de ahi cada nivel multiplica por 4, o sea 4^"@
        + decimal(if n > 0 { (n - 1) as nat } else { 0 }) + " veces la cuenta de despues del primero"@
}

/// Admite hasta `MAX_NIVELES` niveles de subdivisión: cada uno multiplica
/// por cuatro las caras.
pub fn comprobar_niveles(niveles: u32) -> (r: Result<(), MeshError>)
    ensures
        niveles <= MAX_NIVELES ==> r is Ok,
        niveles > MAX_NIVELES ==> (r matches Err(MeshError::Parametro { modificador, detalle })
            && modificador@ == "subdivide"@ && detalle@ == mensaje_niveles(niveles)),
{
    if niveles <= MAX_NIVELES {
        return Ok(());
    }
    let mut out: Vec<char> = Vec::new();
    empujar_decimal(&mut out, niveles as u64);
    anadir(
        &mut out,
        " niveles es demasiado. El primero convierte cada n-gono en n cuadrilateros -- no en 4, eso solo vale si la malla ya era de cuadrilateros -- y a partir de ahi cada nivel multiplica por 4, o sea 4^",
    );
    empujar_decimal(&mut out, (niveles - 1) as u64);
    anadir(&mut out, " veces la cuenta de despues del primero");
    let m = "subdivide";
    proof {
        reveal_strlit("subdivide");
    }
    Err(MeshError::Parametro { modificador: m, detalle: de_caracteres(&out) })
}

} // verus!
