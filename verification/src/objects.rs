use vstd::prelude::*;
use crate::args::{HeapView, alloc_array, heap, intern, intern_in};
use crate::external::{index_entries, index_get};
use crate::fibre::Fibre;
use crate::names::{ascii_lower, eq_ignore_ascii_case, normalize_name, normalized};
use crate::value::{ArrayKey, ArrayView, PhpArray, PhpObject, PhpValue, array_insert};
use crate::vm::VM;

verus! {

/// One decision of finding an object's class.
#[derive(PartialEq, Eq, Debug)]
pub enum ClassIdStep {
    /// The class id.
    Known(usize),
    /// Load the class of this name, then ask again.
    Load(String),
}

impl Fibre {
    /// Whether an object carries a class name that neither its own class
    /// id (a class of that name in any ASCII case) nor the class index
    /// resolves.
    pub open spec fn class_id_unresolved(&self, o: PhpObject) -> bool {
        match o.class_name {
            Some(n) => {
                let cs = self.engine_state.classes@;
                &&& !(o.class_id != 0 && o.class_id < cs.len() && ascii_lower(cs[o.class_id as int].name@) == ascii_lower(n@))
                &&& index_entries(self.engine_state.class_map).get(normalized(n@)) is None
            },
            None => false,
        }
    }

    /// The class an object belongs to: its own id when that class carries
    /// the object's class name (in any ASCII case), else the id the class
    /// index holds for that name, else its own id.
    pub open spec fn obj_class_id(&self, o: PhpObject) -> usize {
        match o.class_name {
            Some(n) => {
                let cs = self.engine_state.classes@;
                if o.class_id != 0 && o.class_id < cs.len() && ascii_lower(cs[o.class_id as int].name@) == ascii_lower(
                    n@,
                ) {
                    o.class_id
                } else {
                    match index_entries(self.engine_state.class_map).get(normalized(n@)) {
                        Some(id) => id,
                        None => o.class_id,
                    }
                }
            },
            None => o.class_id,
        }
    }
}

/// The array of the first `n` properties, each under its interned name.
pub open spec fn properties_array(h: HeapView, props: Seq<(Seq<char>, PhpValue)>, n: int) -> (ArrayView, HeapView)
    decreases n,
{
    if n <= 0 || n > props.len() {
        ((seq![], 0i64), h)
    } else {
        let (arr, h1) = properties_array(h, props, n - 1);
        let (id, h2) = intern_in(h1, props[n - 1].0);
        (array_insert(arr, ArrayKey::StringId(id), props[n - 1].1), h2)
    }
}

/// The heap after snapshotting a value's properties as a new array, and
/// that array's handle: an object's properties under their interned names,
/// nothing for another value.
pub open spec fn properties_snapshot(h: HeapView, v: PhpValue) -> (PhpValue, HeapView) {
    let (arr, h2) = match v {
        PhpValue::Object(o) => properties_array(h, h.2[o as int].2, h.2[o as int].2.len() as int),
        _ => ((seq![], 0i64), h),
    };
    (PhpValue::Array(h2.1.len() as usize), (h2.0, h2.1.push(arr), h2.2, h2.3))
}

impl VM {
    /// The class an object belongs to over the classes loaded now (see
    /// [`Fibre::obj_class_id`]).
    pub fn obj_class_id_loaded(fibre: &Fibre, obj: &PhpObject) -> (r: usize)
        ensures
            r == fibre.obj_class_id(*obj),
    {
        match &obj.class_name {
            Some(name) => {
                let classes = &fibre.engine_state.classes;
                if obj.class_id != 0 && obj.class_id < classes.len() && eq_ignore_ascii_case(
                    classes[obj.class_id].name.as_str(),
                    name.as_str(),
                ) {
                    return obj.class_id;
                }
                let norm = normalize_name(name.as_str());
                match index_get(&fibre.engine_state.class_map, norm.as_str()) {
                    Some(id) => id,
                    None => obj.class_id,
                }
            },
            None => obj.class_id,
        }
    }

    /// One decision of finding the class an object belongs to, with
    /// autoloading: when the object carries a class name that neither its
    /// own class id nor the class index resolves, and no load of it has
    /// been tried (`load_tried`), that name is to be loaded first; otherwise
    /// the class over the classes loaded now (see [`Fibre::obj_class_id`]).
    pub fn resolve_obj_class_id(fibre: &Fibre, obj: &PhpObject, load_tried: bool) -> (r: ClassIdStep)
        ensures
            match r {
                ClassIdStep::Load(n) => !load_tried && obj.class_name == Some(n) && fibre.class_id_unresolved(*obj),
                ClassIdStep::Known(id) => id == fibre.obj_class_id(*obj) && (load_tried || !fibre.class_id_unresolved(*obj)),
            },
    {
        let id = Self::obj_class_id_loaded(fibre, obj);
        match &obj.class_name {
            Some(name) => {
                if !load_tried && id == obj.class_id {
                    let classes = &fibre.engine_state.classes;
                    let own = obj.class_id != 0 && obj.class_id < classes.len() && eq_ignore_ascii_case(
                        classes[obj.class_id].name.as_str(),
                        name.as_str(),
                    );
                    let norm = normalize_name(name.as_str());
                    if !own && index_get(&fibre.engine_state.class_map, norm.as_str()).is_none() {
                        return ClassIdStep::Load(name.clone());
                    }
                }
                ClassIdStep::Known(id)
            },
            None => ClassIdStep::Known(id),
        }
    }

    /// Snapshots an object's properties as an array, the way `foreach`
    /// walks an object that is not traversable (see
    /// [`properties_snapshot`]).
    pub fn object_properties_as_array(fibre: &mut Fibre, obj_val: PhpValue) -> (r: PhpValue)
        requires
            obj_val matches PhpValue::Object(o) ==> o < old(fibre).arena.objects@.len(),
        ensures
            (r, heap(&final(fibre).arena)) == properties_snapshot(heap(&old(fibre).arena), obj_val),
            final(fibre).arena.closures == old(fibre).arena.closures,
            final(fibre).engine_state == old(fibre).engine_state,
            final(fibre).stack == old(fibre).stack,
            final(fibre).stack_top == old(fibre).stack_top,
            final(fibre).frames == old(fibre).frames,
            final(fibre).frame_count == old(fibre).frame_count,
    {
        let mut arr = PhpArray::new();
        let ghost h0 = heap(&fibre.arena);
        match obj_val {
            PhpValue::Object(o) => {
                let ghost props = h0.2[o as int].2;
                let n = fibre.arena.objects[o].properties.len();
                let mut i: usize = 0;
                while i < n
                    invariant
                        o < fibre.arena.objects@.len(),
                        props == h0.2[o as int].2,
                        n == props.len(),
                        i <= n,
                        heap(&fibre.arena).2 == h0.2,
                        (arr.view(), heap(&fibre.arena)) == properties_array(h0, props, i as int),
                        fibre.arena.closures == old(fibre).arena.closures,
                        fibre.engine_state == old(fibre).engine_state,
                        fibre.stack == old(fibre).stack,
                        fibre.stack_top == old(fibre).stack_top,
                        fibre.frames == old(fibre).frames,
                        fibre.frame_count == old(fibre).frame_count,
                    decreases n - i,
                {
                    let ghost ov = crate::args::object_view(fibre.arena.objects@[o as int]);
                    assert(heap(&fibre.arena).2[o as int] == ov);
                    let name = fibre.arena.objects[o].properties[i].0.clone();
                    let v = fibre.arena.objects[o].properties[i].1;
                    assert(props[i as int] == (name@, v));
                    let id = intern(&mut fibre.arena, name.as_str());
                    assert(fibre.arena.objects@.len() == heap(&fibre.arena).2.len());
                    arr.insert(ArrayKey::StringId(id), v);
                    i = i + 1;
                }
            },
            _ => {},
        }
        alloc_array(&mut fibre.arena, arr)
    }
}

} // verus!
