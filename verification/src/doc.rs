//! El documento y su historial.
//!
//! El undo es *meta*: deshace cambios al documento produciendo nada más que un
//! movimiento del cursor sobre la lista de versiones. Ningún pilar tiene pila
//! propia; una transacción confirmada es **una** entrada de historial, cruce los
//! pilares que cruce. El estado de cada versión es inmutable (`D`): confirmar
//! es añadir una versión nueva, deshacer es mover el cursor hacia atrás.

use vstd::prelude::*;

use crate::ids::VersionId;

verus! {

/// Qué pasó en el documento. Los pilares se enteran por aquí.
#[derive(Clone, Debug)]
pub enum DocEvent {
    Committed { version: VersionId, label: String },
    Undone { to: VersionId, undid: String },
    Redone { to: VersionId, redid: String },
}

/// Identidad de una suscripción a los eventos del documento.
#[derive(Clone, Copy, PartialEq, Eq, Structural, Debug)]
pub struct SubId(pub u64);

/// Una versión del historial: identidad, etiqueta y estado completo.
pub struct Version<D> {
    pub id: VersionId,
    pub label: String,
    pub data: D,
}

/// Techo del historial en memoria por defecto.
pub const LIMITE_POR_DEFECTO: usize = 512;

/// Documento con historial lineal de versiones y cursor.
pub struct Document<D> {
    versions: Vec<Version<D>>,
    /// Índice de la versión vigente. Deshacer es moverlo, nada más.
    cursor: usize,
    next_version: u64,
    evento: Option<DocEvent>,
    /// Suscripciones vivas, en orden de alta. Quien reparte los eventos llama
    /// a los oyentes de estas identidades, en este orden.
    subs: Vec<SubId>,
    next_sub: u64,
    /// Techo del historial en memoria. Al superarlo se podan las versiones más
    /// antiguas; el cursor se corrige para seguir apuntando al mismo estado.
    history_limit: usize,
}

/// Modelo abstracto del historial: las versiones y el cursor.
pub struct Historial<D> {
    pub versions: Seq<Version<D>>,
    pub cursor: int,
}

/// Ids estrictamente crecientes y todos por debajo de `siguiente`.
pub open spec fn ids_crecientes<D>(vs: Seq<Version<D>>, siguiente: u64) -> bool {
    &&& forall|i: int, j: int| 0 <= i < j < vs.len() ==> vs[i].id.0 < vs[j].id.0
    &&& forall|i: int| 0 <= i < vs.len() ==> vs[i].id.0 < siguiente
}

/// Confirmar: se descarta lo que hubiera por delante del cursor, se añade la
/// versión nueva y, si se supera el techo, se podan las más antiguas.
pub open spec fn tras_commit<D>(h: Historial<D>, v: Version<D>, limite: int) -> Historial<D> {
    let vs = h.versions.take(h.cursor + 1).push(v);
    if vs.len() > limite {
        let podar = vs.len() - limite;
        Historial { versions: vs.skip(podar), cursor: vs.len() - 1 - podar }
    } else {
        Historial { versions: vs, cursor: vs.len() - 1 }
    }
}

/// Deshacer: el cursor retrocede uno si puede.
pub open spec fn tras_undo<D>(h: Historial<D>) -> Historial<D> {
    if h.cursor > 0 {
        Historial { versions: h.versions, cursor: h.cursor - 1 }
    } else {
        h
    }
}

/// Rehacer: el cursor avanza uno si puede.
pub open spec fn tras_redo<D>(h: Historial<D>) -> Historial<D> {
    if h.cursor + 1 < h.versions.len() {
        Historial { versions: h.versions, cursor: h.cursor + 1 }
    } else {
        h
    }
}

/// La versión vigente de un historial.
pub open spec fn vigente<D>(h: Historial<D>) -> Version<D> {
    h.versions[h.cursor]
}

impl<D> Document<D> {
    /// El historial abstracto.
    pub closed spec fn historial(&self) -> Historial<D> {
        Historial { versions: self.versions@, cursor: self.cursor as int }
    }

    /// Siguiente id que se asignará.
    pub closed spec fn siguiente(&self) -> u64 {
        self.next_version
    }

    /// Invariante del documento.
    pub closed spec fn wf(&self) -> bool {
        &&& self.versions.len() >= 1
        &&& self.cursor < self.versions.len()
        &&& ids_crecientes(self.versions@, self.next_version)
        &&& forall|i: int, j: int|
            0 <= i < j < self.subs@.len() ==> self.subs@[i].0 < self.subs@[j].0
        &&& forall|i: int| 0 <= i < self.subs@.len() ==> self.subs@[i].0 < self.next_sub
    }

    /// Suscripciones vivas, en orden de alta.
    pub closed spec fn suscritos(&self) -> Seq<SubId> {
        self.subs@
    }

    /// Identidad que recibirá la próxima suscripción.
    pub closed spec fn siguiente_sub(&self) -> u64 {
        self.next_sub
    }

    /// Techo del historial.
    pub closed spec fn limite(&self) -> usize {
        self.history_limit
    }

    /// Último evento emitido, para quien lo reparta a los suscriptores.
    pub closed spec fn spec_evento(&self) -> Option<DocEvent> {
        self.evento
    }

    /// Documento nuevo con un único estado inicial, la versión 0.
    pub fn new(inicial: D) -> (r: Self)
        ensures
            r.wf(),
            r.historial().cursor == 0,
            r.historial().versions.len() == 1,
            r.historial().versions[0].id == VersionId(0),
            r.historial().versions[0].label@ == "documento nuevo"@,
            r.historial().versions[0].data == inicial,
            r.limite() == LIMITE_POR_DEFECTO,
            r.spec_evento() is None,
            r.suscritos() == Seq::<SubId>::empty(),
            r.siguiente_sub() == 0,
            r.siguiente() == 1,
    {
        Self::from_parts(inicial, String::from_str("documento nuevo"))
    }

    /// Documento cuyo estado inicial viene de fuera (un archivo leído), con la
    /// etiqueta que se quiera mostrar.
    pub fn from_parts(inicial: D, label: String) -> (r: Self)
        ensures
            r.wf(),
            r.historial().cursor == 0,
            r.historial().versions.len() == 1,
            r.historial().versions[0].id == VersionId(0),
            r.historial().versions[0].label == label,
            r.historial().versions[0].data == inicial,
            r.limite() == LIMITE_POR_DEFECTO,
            r.spec_evento() is None,
            r.suscritos() == Seq::<SubId>::empty(),
            r.siguiente_sub() == 0,
            r.siguiente() == 1,
    {
        let mut versions = Vec::new();
        versions.push(Version { id: VersionId(0), label, data: inicial });
        Document {
            versions,
            cursor: 0,
            next_version: 1,
            evento: None,
            subs: Vec::new(),
            next_sub: 0,
            history_limit: LIMITE_POR_DEFECTO,
        }
    }

    /// Versión vigente.
    pub fn version(&self) -> (r: VersionId)
        requires
            self.wf(),
        ensures
            r == vigente(self.historial()).id,
    {
        self.versions[self.cursor].id
    }

    /// Estado de la versión vigente. Es lo único que ven los pilares.
    pub fn snapshot(&self) -> (r: &D)
        requires
            self.wf(),
        ensures
            *r == vigente(self.historial()).data,
    {
        &self.versions[self.cursor].data
    }

    /// Techo del historial en memoria.
    pub fn history_limit(&self) -> (r: usize)
        ensures
            r == self.limite(),
    {
        self.history_limit
    }

    /// Cambia el techo del historial. Se aplica en el siguiente `commit`.
    pub fn set_history_limit(&mut self, n: usize)
        ensures
            final(self).limite() == n,
            final(self).historial() == old(self).historial(),
            final(self).siguiente() == old(self).siguiente(),
            final(self).spec_evento() == old(self).spec_evento(),
            final(self).wf() == old(self).wf(),
            final(self).suscritos() == old(self).suscritos(),
            final(self).siguiente_sub() == old(self).siguiente_sub(),
    {
        self.history_limit = n;
        proof {
            assert(self.versions@ == old(self).versions@);
            assert(self.subs@ == old(self).subs@);
        }
    }

    /// Último evento emitido.
    pub fn evento(&self) -> (r: &Option<DocEvent>)
        ensures
            *r == self.spec_evento(),
    {
        &self.evento
    }

    pub fn can_undo(&self) -> (r: bool)
        ensures
            r == (self.historial().cursor > 0),
    {
        self.cursor > 0
    }

    pub fn can_redo(&self) -> (r: bool)
        requires
            self.wf(),
        ensures
            r == (self.historial().cursor + 1 < self.historial().versions.len()),
    {
        self.cursor + 1 < self.versions.len()
    }

    /// Deshace: el cursor retrocede a la versión anterior, si la hay.
    pub fn undo(&mut self) -> (r: Option<VersionId>)
        requires
            old(self).wf(),
        ensures
            final(self).wf(),
            final(self).historial() == tras_undo(old(self).historial()),
            final(self).limite() == old(self).limite(),
            final(self).suscritos() == old(self).suscritos(),
            final(self).siguiente_sub() == old(self).siguiente_sub(),
            final(self).siguiente() == old(self).siguiente(),
            old(self).historial().cursor > 0 ==> r == Some(vigente(final(self).historial()).id),
            old(self).historial().cursor > 0 ==> final(self).spec_evento() == Some(
                DocEvent::Undone {
                    to: vigente(final(self).historial()).id,
                    undid: vigente(old(self).historial()).label,
                },
            ),
            old(self).historial().cursor == 0 ==> r is None && final(self).spec_evento()
                == old(self).spec_evento(),
    {
        if self.cursor == 0 {
            return None;
        }
        let undid = self.versions[self.cursor].label.clone();
        self.cursor = self.cursor - 1;
        let to = self.versions[self.cursor].id;
        self.evento = Some(DocEvent::Undone { to, undid });
        Some(to)
    }

    /// Rehace: el cursor avanza a la versión siguiente, si la hay.
    pub fn redo(&mut self) -> (r: Option<VersionId>)
        requires
            old(self).wf(),
        ensures
            final(self).wf(),
            final(self).historial() == tras_redo(old(self).historial()),
            final(self).limite() == old(self).limite(),
            final(self).suscritos() == old(self).suscritos(),
            final(self).siguiente_sub() == old(self).siguiente_sub(),
            final(self).siguiente() == old(self).siguiente(),
            old(self).historial().cursor + 1 < old(self).historial().versions.len() ==> r == Some(
                vigente(final(self).historial()).id,
            ),
            old(self).historial().cursor + 1 < old(self).historial().versions.len()
                ==> final(self).spec_evento() == Some(
                DocEvent::Redone {
                    to: vigente(final(self).historial()).id,
                    redid: vigente(final(self).historial()).label,
                },
            ),
            old(self).historial().cursor + 1 >= old(self).historial().versions.len() ==> r is None
                && final(self).spec_evento() == old(self).spec_evento(),
    {
        if self.cursor + 1 >= self.versions.len() {
            return None;
        }
        self.cursor = self.cursor + 1;
        let to = self.versions[self.cursor].id;
        let redid = self.versions[self.cursor].label.clone();
        self.evento = Some(DocEvent::Redone { to, redid });
        Some(to)
    }

    /// Etiquetas del historial vigente, de la más antigua a la actual.
    pub fn history(&self) -> (r: Vec<(VersionId, String)>)
        requires
            self.wf(),
        ensures
            r@.len() == self.historial().cursor + 1,
            forall|i: int|
                0 <= i <= self.historial().cursor ==> #[trigger] r@[i] == (
                    self.historial().versions[i].id,
                    self.historial().versions[i].label,
                ),
    {
        let mut out: Vec<(VersionId, String)> = Vec::new();
        let mut i: usize = 0;
        while i <= self.cursor
            invariant
                self.wf(),
                i <= self.cursor + 1,
                out@.len() == i,
                forall|k: int|
                    0 <= k < i ==> #[trigger] out@[k] == (
                        self.versions@[k].id,
                        self.versions@[k].label,
                    ),
            decreases self.cursor + 1 - i,
        {
            let v = &self.versions[i];
            out.push((v.id, v.label.clone()));
            i = i + 1;
        }
        out
    }

    /// Suscripciones vivas, en orden de alta: a quién hay que avisar del
    /// último evento.
    pub fn suscriptores(&self) -> (r: &Vec<SubId>)
        ensures
            r@ == self.suscritos(),
    {
        &self.subs
    }

    /// Da de alta una suscripción y devuelve su identidad, nueva y mayor que
    /// todas las anteriores.
    pub fn subscribe(&mut self) -> (r: SubId)
        requires
            old(self).wf(),
            old(self).siguiente_sub() < u64::MAX,
        ensures
            final(self).wf(),
            r == SubId(old(self).siguiente_sub()),
            final(self).siguiente_sub() == old(self).siguiente_sub() + 1,
            final(self).suscritos() == old(self).suscritos().push(r),
            final(self).historial() == old(self).historial(),
            final(self).siguiente() == old(self).siguiente(),
            final(self).limite() == old(self).limite(),
            final(self).spec_evento() == old(self).spec_evento(),
    {
        let id = SubId(self.next_sub);
        self.next_sub = self.next_sub + 1;
        self.subs.push(id);
        id
    }

    /// Da de baja una suscripción. Las demás siguen en su orden; una identidad
    /// que no está suscrita no cambia nada.
    pub fn unsubscribe(&mut self, id: SubId)
        requires
            old(self).wf(),
        ensures
            final(self).wf(),
            final(self).suscritos() == sin(old(self).suscritos(), id),
            final(self).siguiente_sub() == old(self).siguiente_sub(),
            final(self).historial() == old(self).historial(),
            final(self).siguiente() == old(self).siguiente(),
            final(self).limite() == old(self).limite(),
            final(self).spec_evento() == old(self).spec_evento(),
    {
        let ghost viejos = self.subs@;
        let mut quedan: Vec<SubId> = Vec::new();
        let mut i: usize = 0;
        while i < self.subs.len()
            invariant
                self.subs@ == viejos,
                i <= viejos.len(),
                quedan@ == sin(viejos.take(i as int), id),
                forall|a: int, b: int|
                    0 <= a < b < viejos.len() ==> viejos[a].0 < viejos[b].0,
                forall|a: int, b: int|
                    0 <= a < b < quedan@.len() ==> quedan@[a].0 < quedan@[b].0,
                forall|a: int| 0 <= a < quedan@.len() ==> quedan@[a].0 < self.next_sub,
                forall|a: int| 0 <= a < viejos.len() ==> viejos[a].0 < self.next_sub,
                i < viejos.len() ==> forall|a: int|
                    0 <= a < quedan@.len() ==> quedan@[a].0 < viejos[i as int].0,
            decreases viejos.len() - i,
        {
            let s = self.subs[i];
            proof {
                assert(viejos.take(i as int + 1) =~= viejos.take(i as int).push(s));
                viejos.take(i as int).lemma_filter_push(s, distinta_de(id));
            }
            if s != id {
                quedan.push(s);
            }
            i = i + 1;
        }
        proof {
            assert(viejos.take(viejos.len() as int) =~= viejos);
        }
        self.subs = quedan;
    }

    /// Confirma un estado nuevo. Todo lo que quede por delante del cursor se
    /// descarta: editar después de deshacer abre una rama nueva y la vieja se
    /// pierde.
    pub fn commit(&mut self, data: D, label: String) -> (r: VersionId)
        requires
            old(self).wf(),
            old(self).limite() >= 1,
            old(self).siguiente() < u64::MAX,
        ensures
            final(self).wf(),
            r == VersionId(old(self).siguiente()),
            forall|i: int|
                0 <= i < old(self).historial().versions.len() ==> #[trigger] old(self).historial().versions[i].id.0
                    < r.0,
            final(self).siguiente() == old(self).siguiente() + 1,
            final(self).historial() == tras_commit(
                old(self).historial(),
                Version { id: r, label, data },
                old(self).limite() as int,
            ),
            final(self).limite() == old(self).limite(),
            final(self).spec_evento() == Some(DocEvent::Committed { version: r, label }),
            final(self).suscritos() == old(self).suscritos(),
            final(self).siguiente_sub() == old(self).siguiente_sub(),
    {
        let ghost h0 = self.historial();
        let mut versions: Vec<Version<D>> = Vec::new();
        std::mem::swap(&mut versions, &mut self.versions);
        versions.truncate(self.cursor + 1);
        let id = VersionId(self.next_version);
        self.next_version = self.next_version + 1;
        let etiqueta = label.clone();
        versions.push(Version { id, label, data });
        let ghost vs = versions@;
        assert(vs =~= h0.versions.take(h0.cursor + 1).push(Version { id, label: etiqueta, data }));
        if versions.len() > self.history_limit {
            let podar = versions.len() - self.history_limit;
            let resto = versions.split_off(podar);
            assert(resto@ =~= vs.skip(podar as int));
            self.versions = resto;
            self.cursor = self.versions.len() - 1;
        } else {
            self.versions = versions;
            self.cursor = self.versions.len() - 1;
        }
        self.evento = Some(DocEvent::Committed { version: id, label: etiqueta });
        id
    }
}

/// Las suscripciones sin la de `id`, en el mismo orden.
pub open spec fn sin(subs: Seq<SubId>, id: SubId) -> Seq<SubId> {
    subs.filter(distinta_de(id))
}

/// ¿Es una suscripción distinta de `id`?
pub open spec fn distinta_de(id: SubId) -> spec_fn(SubId) -> bool {
    |s: SubId| s != id
}

/// Un historial bien formado: al menos una versión y el cursor dentro.
pub open spec fn historial_valido<D>(h: Historial<D>) -> bool {
    h.versions.len() >= 1 && 0 <= h.cursor < h.versions.len()
}

/// Un paseo de deshacer (`true`) y rehacer (`false`) aplicado en orden.
pub open spec fn pasear<D>(h: Historial<D>, pasos: Seq<bool>) -> Historial<D>
    decreases pasos.len(),
{
    if pasos.len() == 0 {
        h
    } else {
        let h1 = if pasos[0] {
            tras_undo(h)
        } else {
            tras_redo(h)
        };
        pasear(h1, pasos.drop_first())
    }
}

/// Deshacer justo después de confirmar devuelve el estado de antes de la
/// confirmación, siempre que el techo del historial deje al menos dos versiones.
pub proof fn ley_undo_tras_commit<D>(h: Historial<D>, v: Version<D>, limite: int)
    requires
        historial_valido(h),
        limite >= 2,
    ensures
        vigente(tras_undo(tras_commit(h, v, limite))) == vigente(h),
        historial_valido(tras_commit(h, v, limite)),
{
}

/// Tras confirmar, la versión vigente es la confirmada, no queda nada que
/// rehacer y el historial no supera su techo.
pub proof fn ley_commit<D>(h: Historial<D>, v: Version<D>, limite: int)
    requires
        historial_valido(h),
        limite >= 1,
    ensures
        vigente(tras_commit(h, v, limite)) == v,
        tras_commit(h, v, limite).cursor + 1 == tras_commit(h, v, limite).versions.len(),
        tras_commit(h, v, limite).versions.len() <= limite,
        historial_valido(tras_commit(h, v, limite)),
{
}

/// Rehacer deshace lo que deshizo un undo, y deshacer deshace lo que rehízo un
/// redo: los dos son inversos exactos cuando pueden actuar.
pub proof fn ley_undo_redo_inversos<D>(h: Historial<D>)
    requires
        historial_valido(h),
    ensures
        h.cursor > 0 ==> tras_redo(tras_undo(h)) == h,
        h.cursor + 1 < h.versions.len() ==> tras_undo(tras_redo(h)) == h,
{
}

/// Un paseo cualquiera de deshacer y rehacer no toca ninguna versión: el estado
/// al que se llega es exactamente el que se confirmó con ese id, así que no
/// puede divergir de re-ejecutar las ediciones desde cero.
pub proof fn ley_paseo_no_altera_versiones<D>(h: Historial<D>, pasos: Seq<bool>)
    requires
        historial_valido(h),
    ensures
        pasear(h, pasos).versions == h.versions,
        historial_valido(pasear(h, pasos)),
    decreases pasos.len(),
{
    if pasos.len() > 0 {
        let h1 = if pasos[0] {
            tras_undo(h)
        } else {
            tras_redo(h)
        };
        ley_paseo_no_altera_versiones(h1, pasos.drop_first());
    }
}


impl<D> Document<D> {
    /// Un documento bien formado tiene un historial válido: las leyes del
    /// historial valen para él.
    pub proof fn lema_historial_valido(&self)
        requires
            self.wf(),
        ensures
            historial_valido(self.historial()),
    {
    }
}

} // verus!
