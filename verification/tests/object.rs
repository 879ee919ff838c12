//! Property look-ups, method calls and instance checks on a small runtime.
use ruffle::object::{
    search_prototype, Error, Object, ObjectCore, ObjectPtr, TObject, Value, MAX_PROTOTYPE_DEPTH,
};

/// What a property of the test runtime holds.
#[derive(Clone, Debug)]
enum Slot {
    Text(&'static str),
    Reference(usize),
    Throws(&'static str),
}

#[derive(Clone, Debug, Default)]
struct Entry {
    proto: Option<usize>,
    slots: Vec<(&'static str, Slot)>,
    interfaces: Vec<usize>,
    /// Takes this prototype when it is asked for a property.
    turns_to: Option<usize>,
}

#[derive(Debug)]
struct Heap {
    entries: Vec<Entry>,
    swf_version: u8,
    trace: Vec<String>,
}

#[derive(Clone, Copy, Debug)]
struct Handle(usize);

impl ObjectCore for Handle {
    type Activation = Heap;
    type Failure = &'static str;

    fn as_ptr(&self) -> ObjectPtr {
        ObjectPtr::Address(self.0)
    }

    fn proto(&self, heap: &Heap) -> Option<Object<Self>> {
        heap.entries[self.0].proto.map(object)
    }

    fn interfaces(&self, heap: &Heap) -> Vec<Object<Self>> {
        let mut interfaces = Vec::new();
        for interface in &heap.entries[self.0].interfaces {
            interfaces.push(object(*interface));
        }
        interfaces
    }

    fn current_swf_version(heap: &Heap) -> u8 {
        heap.swf_version
    }

    fn has_own_property(&self, heap: &mut Heap, name: &str) -> bool {
        heap.trace.push(format!("has {} {}", self.0, name));
        let entry = &mut heap.entries[self.0];
        if entry.turns_to.is_some() {
            entry.proto = entry.turns_to;
        }
        entry.slots.iter().any(|(key, _)| *key == name)
    }

    fn get_local(
        &self,
        name: &str,
        heap: &mut Heap,
        this: Object<Self>,
    ) -> Result<Value<Self>, Error<&'static str>> {
        heap.trace.push(format!("get {} {} for {}", self.0, name, this.repr.0));
        for (key, slot) in &heap.entries[self.0].slots {
            if *key == name {
                return match slot {
                    Slot::Text(text) => Ok(Value::String(text.to_string())),
                    Slot::Reference(index) => Ok(Value::Object(object(*index))),
                    Slot::Throws(reason) => Err(Error::Runtime(reason)),
                };
            }
        }
        Ok(Value::Undefined)
    }

    fn call_value(
        method: Value<Self>,
        name: &str,
        heap: &mut Heap,
        this: Object<Self>,
        base_proto: Option<Object<Self>>,
        args: &[Value<Self>],
    ) -> Result<Value<Self>, Error<&'static str>> {
        let base = base_proto.map(|base| base.repr.0);
        heap.trace.push(format!(
            "call {} on {} base {:?} with {}",
            name,
            this.repr.0,
            base,
            args.len()
        ));
        match method {
            Value::Object(function) => Ok(Value::Number(function.repr.0 as u64)),
            _ => Ok(Value::Undefined),
        }
    }

    fn undefined_to_object(heap: &mut Heap) -> Object<Self> {
        heap.entries.push(Entry::default());
        object(heap.entries.len() - 1)
    }
}

impl TObject for Handle {
    type SoundObject = ();
    type StageObject = ();
    type SuperObject = ();
    type DisplayObject = ();
    type Executable = ();
    type XMLNode = ();
    type ValueObject = ();
    type SharedObject = ();
    type DateObject = ();
    type ColorTransformObject = ();
    type TransformObject = ();
    type BlurFilterObject = ();
    type BevelFilterObject = ();
}

fn object(index: usize) -> Object<Handle> {
    Object { repr: Handle(index) }
}

fn heap(entries: Vec<Entry>) -> Heap {
    Heap { entries, swf_version: 7, trace: Vec::new() }
}

fn entry(proto: Option<usize>, slots: Vec<(&'static str, Slot)>) -> Entry {
    Entry { proto, slots, interfaces: Vec::new(), turns_to: None }
}

/// A chain of objects, each the prototype of the one before it.
fn chain(length: usize) -> Vec<Entry> {
    let mut entries = Vec::new();
    for i in 0..length {
        entries.push(entry(if i + 1 < length { Some(i + 1) } else { None }, vec![]));
    }
    entries
}

fn is_text(value: &Value<Handle>, expected: &str) -> bool {
    matches!(value, Value::String(text) if text.as_str() == expected)
}

#[test]
fn handles_of_one_object_are_equal() {
    assert!(Object::ptr_eq(object(3), object(3)));
    assert!(!Object::ptr_eq(object(3), object(4)));
    assert_eq!(object(3).repr.as_ptr(), ObjectPtr::Address(3));
}

#[test]
fn search_finds_the_nearest_property() {
    let mut heap = heap(vec![
        entry(Some(1), vec![("y", Slot::Text("own"))]),
        entry(Some(2), vec![("x", Slot::Text("near"))]),
        entry(None, vec![("x", Slot::Text("far")), ("z", Slot::Text("last"))]),
    ]);
    let (value, holder) = search_prototype(Some(object(0)), "x", &mut heap, object(0)).unwrap();
    assert!(is_text(&value, "near"));
    assert_eq!(holder.unwrap().repr.0, 1);
    let (value, holder) = search_prototype(Some(object(0)), "z", &mut heap, object(0)).unwrap();
    assert!(is_text(&value, "last"));
    assert_eq!(holder.unwrap().repr.0, 2);
}

#[test]
fn search_hands_this_to_the_property() {
    let mut heap = heap(vec![
        entry(Some(1), vec![]),
        entry(None, vec![("x", Slot::Text("here"))]),
        entry(None, vec![]),
    ]);
    search_prototype(Some(object(0)), "x", &mut heap, object(2)).unwrap();
    assert_eq!(heap.trace, vec!["has 0 x", "has 1 x", "get 1 x for 2"]);
}

#[test]
fn search_past_the_end_is_undefined() {
    let mut heap = heap(chain(3));
    let (value, holder) = search_prototype(Some(object(0)), "x", &mut heap, object(0)).unwrap();
    assert!(matches!(value, Value::Undefined));
    assert!(holder.is_none());
    let (value, holder) = search_prototype(None, "x", &mut heap, object(0)).unwrap();
    assert!(matches!(value, Value::Undefined));
    assert!(holder.is_none());
}

#[test]
fn search_visits_at_most_255_objects() {
    assert_eq!(MAX_PROTOTYPE_DEPTH, 255);
    let mut short = heap(chain(255));
    let found = search_prototype(Some(object(0)), "x", &mut short, object(0));
    assert!(matches!(found, Ok((Value::Undefined, None))));
    assert_eq!(short.trace.len(), 255);

    let mut long = heap(chain(256));
    let found = search_prototype(Some(object(0)), "x", &mut long, object(0));
    assert!(matches!(found, Err(Error::PrototypeRecursionLimit)));
    assert_eq!(long.trace.len(), 255);
}

#[test]
fn search_finds_a_property_on_the_last_object_that_it_visits() {
    let mut entries = chain(256);
    entries[254].slots.push(("x", Slot::Text("last")));
    let mut reachable = heap(entries);
    let found = search_prototype(Some(object(0)), "x", &mut reachable, object(0));
    assert!(matches!(found, Ok((Value::String(_), Some(holder))) if holder.repr.0 == 254));

    let mut entries = chain(256);
    entries[255].slots.push(("x", Slot::Text("too far")));
    let mut unreachable = heap(entries);
    let found = search_prototype(Some(object(0)), "x", &mut unreachable, object(0));
    assert!(matches!(found, Err(Error::PrototypeRecursionLimit)));
}

#[test]
fn search_on_a_circle_gives_up() {
    let mut entries = chain(2);
    entries[1].proto = Some(0);
    let mut heap = heap(entries);
    let found = search_prototype(Some(object(0)), "x", &mut heap, object(0));
    assert!(matches!(found, Err(Error::PrototypeRecursionLimit)));
}

#[test]
fn search_passes_on_what_a_property_throws() {
    let mut heap = heap(vec![entry(None, vec![("x", Slot::Throws("no"))])]);
    let found = search_prototype(Some(object(0)), "x", &mut heap, object(0));
    assert!(matches!(found, Err(Error::Runtime("no"))));
}

#[test]
fn search_goes_on_with_the_prototype_after_asking() {
    let mut entries = vec![
        entry(Some(1), vec![]),
        entry(None, vec![("x", Slot::Text("before"))]),
        entry(None, vec![("x", Slot::Text("after"))]),
    ];
    entries[0].turns_to = Some(2);
    let mut heap = heap(entries);
    let (value, _) = search_prototype(Some(object(0)), "x", &mut heap, object(0)).unwrap();
    assert!(is_text(&value, "after"));
}

#[test]
fn get_reads_own_properties_first() {
    let mut heap = heap(vec![
        entry(Some(1), vec![("x", Slot::Text("own"))]),
        entry(None, vec![("x", Slot::Text("inherited")), ("y", Slot::Text("other"))]),
    ]);
    assert!(is_text(&object(0).repr.get("x", &mut heap).unwrap(), "own"));
    assert!(is_text(&object(0).repr.get("y", &mut heap).unwrap(), "other"));
    assert!(matches!(object(0).repr.get("z", &mut heap), Ok(Value::Undefined)));
    assert_eq!(heap.trace[1], "get 0 x for 0");
    assert_eq!(heap.trace[4], "get 1 y for 0");
}

#[test]
fn get_visits_255_prototypes() {
    let mut short = heap(chain(256));
    assert!(matches!(object(0).repr.get("x", &mut short), Ok(Value::Undefined)));
    let mut long = heap(chain(257));
    assert!(matches!(object(0).repr.get("x", &mut long), Err(Error::PrototypeRecursionLimit)));
}

#[test]
fn get_passes_on_what_a_property_throws() {
    let mut heap = heap(vec![
        entry(Some(1), vec![("x", Slot::Throws("own"))]),
        entry(None, vec![("y", Slot::Throws("inherited"))]),
    ]);
    assert!(matches!(object(0).repr.get("x", &mut heap), Err(Error::Runtime("own"))));
    assert!(matches!(object(0).repr.get("y", &mut heap), Err(Error::Runtime("inherited"))));
}

#[test]
fn methods_are_called_with_this_and_their_base() {
    let mut heap = heap(vec![
        entry(Some(1), vec![]),
        entry(None, vec![("run", Slot::Reference(2))]),
        entry(None, vec![]),
    ]);
    let args = vec![Value::Null, Value::Bool(true)];
    let result = object(0).repr.call_method("run", &args, &mut heap);
    assert!(matches!(result, Ok(Value::Number(2))));
    assert_eq!(heap.trace.last().unwrap(), "call run on 0 base Some(1) with 2");
}

#[test]
fn own_methods_have_the_object_as_their_base() {
    let mut heap = heap(vec![entry(None, vec![("run", Slot::Reference(0))])]);
    object(0).repr.call_method("run", &[], &mut heap).unwrap();
    assert_eq!(heap.trace.last().unwrap(), "call run on 0 base Some(0) with 0");
}

#[test]
fn missing_methods_are_called_as_undefined() {
    let mut heap = heap(chain(2));
    let result = object(0).repr.call_method("run", &[], &mut heap);
    assert!(matches!(result, Ok(Value::Undefined)));
    assert_eq!(heap.trace.last().unwrap(), "call run on 0 base None with 0");
}

#[test]
fn method_calls_pass_on_what_the_search_throws() {
    let mut throwing = heap(vec![entry(None, vec![("run", Slot::Throws("no"))])]);
    let result = object(0).repr.call_method("run", &[], &mut throwing);
    assert!(matches!(result, Err(Error::Runtime("no"))));
    assert_eq!(throwing.trace.last().unwrap(), "get 0 run for 0");
    let mut long = heap(chain(256));
    let result = object(0).repr.call_method("run", &[], &mut long);
    assert!(matches!(result, Err(Error::PrototypeRecursionLimit)));
}

#[test]
fn prototypes_are_found_along_the_chain() {
    let mut entries = chain(4);
    entries[1].proto = None;
    entries.push(entry(Some(2), vec![]));
    let heap = heap(entries);
    assert!(object(1).repr.is_prototype_of(object(0), &heap));
    assert!(object(3).repr.is_prototype_of(object(2), &heap));
    assert!(object(2).repr.is_prototype_of(object(4), &heap));
    assert!(object(3).repr.is_prototype_of(object(4), &heap));
    assert!(!object(2).repr.is_prototype_of(object(0), &heap));
    assert!(!object(0).repr.is_prototype_of(object(0), &heap));
    assert!(!object(0).repr.is_prototype_of(object(1), &heap));
}

#[test]
fn an_object_on_a_circle_is_its_own_prototype() {
    let mut entries = chain(3);
    entries[2].proto = Some(0);
    let heap = heap(entries);
    assert!(object(0).repr.is_prototype_of(object(0), &heap));
    assert!(object(2).repr.is_prototype_of(object(0), &heap));
}

/// 0 is an instance of the class with prototype 1, which implements the
/// interface with constructor 2 and prototype 3, whose parent has prototype 4;
/// 5 and 6 are the constructor and the prototype of another class.
fn classes() -> Vec<Entry> {
    let mut entries = vec![
        entry(Some(1), vec![]),
        entry(None, vec![]),
        entry(None, vec![("prototype", Slot::Reference(3))]),
        entry(Some(4), vec![]),
        entry(None, vec![]),
        entry(None, vec![("prototype", Slot::Reference(6))]),
        entry(None, vec![]),
    ];
    entries[1].interfaces = vec![2];
    entries
}

#[test]
fn instances_are_recognized_by_their_prototypes() {
    let mut heap = heap(classes());
    assert!(matches!(object(0).repr.is_instance_of(&mut heap, object(5), object(1)), Ok(true)));
    assert!(matches!(object(0).repr.is_instance_of(&mut heap, object(5), object(6)), Ok(false)));
    assert!(matches!(object(0).repr.is_instance_of(&mut heap, object(5), object(0)), Ok(false)));
}

#[test]
fn instances_are_recognized_by_their_interfaces() {
    let mut heap = heap(classes());
    assert!(matches!(object(0).repr.is_instance_of(&mut heap, object(2), object(6)), Ok(true)));
    assert!(matches!(object(0).repr.is_instance_of(&mut heap, object(5), object(3)), Ok(true)));
    assert!(matches!(object(0).repr.is_instance_of(&mut heap, object(5), object(4)), Ok(true)));
}

#[test]
fn interfaces_count_from_version_7_on() {
    let mut heap = heap(classes());
    heap.swf_version = 6;
    assert!(matches!(object(0).repr.is_instance_of(&mut heap, object(2), object(3)), Ok(false)));
    assert!(matches!(object(0).repr.is_instance_of(&mut heap, object(5), object(1)), Ok(true)));
    assert!(heap.trace.is_empty());
    heap.swf_version = 7;
    assert!(matches!(object(0).repr.is_instance_of(&mut heap, object(2), object(3)), Ok(true)));
}

#[test]
fn instance_checks_pass_on_what_an_interface_throws() {
    let mut entries = classes();
    entries[2].slots = vec![("prototype", Slot::Throws("no"))];
    let mut heap = heap(entries);
    let result = object(0).repr.is_instance_of(&mut heap, object(5), object(6));
    assert!(matches!(result, Err(Error::Runtime("no"))));
}

#[test]
fn interfaces_without_a_prototype_lead_nowhere() {
    let mut entries = classes();
    entries[2].slots = vec![("prototype", Slot::Text("none"))];
    let mut heap = heap(entries);
    assert!(matches!(object(0).repr.is_instance_of(&mut heap, object(5), object(3)), Ok(false)));
}

#[test]
fn an_object_without_a_prototype_is_no_instance() {
    let mut heap = heap(chain(1));
    assert!(matches!(object(0).repr.is_instance_of(&mut heap, object(0), object(0)), Ok(false)));
}

#[test]
fn constructing_makes_an_undefined_object() {
    let mut heap = heap(chain(1));
    let made = object(0).repr.construct(&mut heap, &[]).unwrap();
    assert_eq!(made.repr.0, 1);
    assert_eq!(heap.entries.len(), 2);
    assert!(object(0).repr.construct_on_existing(&mut heap, made, &[]).is_ok());
    assert_eq!(heap.entries.len(), 2);
}

#[test]
fn objects_have_no_other_sides_unless_they_say_so() {
    let plain = Handle(0);
    assert!(plain.as_sound_object().is_none());
    assert!(plain.as_stage_object().is_none());
    assert!(plain.as_super_object().is_none());
    assert!(plain.as_display_object().is_none());
    assert!(plain.as_executable().is_none());
    assert!(plain.as_xml_node().is_none());
    assert!(plain.as_value_object().is_none());
    assert!(plain.as_shared_object().is_none());
    assert!(plain.as_date_object().is_none());
    assert!(plain.as_color_transform_object().is_none());
    assert!(plain.as_transform_object().is_none());
    assert!(plain.as_blur_filter_object().is_none());
    assert!(plain.as_bevel_filter_object().is_none());
}

/// An object of a runtime whose properties are computed from their names, and
/// which answers method calls itself.
#[derive(Clone, Copy, Debug)]
struct Computed(usize);

impl ObjectCore for Computed {
    type Activation = u32;
    type Failure = &'static str;

    fn as_ptr(&self) -> ObjectPtr {
        ObjectPtr::Address(self.0)
    }

    fn proto(&self, _reads: &u32) -> Option<Object<Self>> {
        if self.0 == 0 {
            Some(Object { repr: Computed(1) })
        } else {
            None
        }
    }

    fn interfaces(&self, _reads: &u32) -> Vec<Object<Self>> {
        if self.0 == 1 {
            vec![Object { repr: Computed(2) }]
        } else {
            vec![]
        }
    }

    fn current_swf_version(_reads: &u32) -> u8 {
        8
    }

    fn has_own_property(&self, _reads: &mut u32, _name: &str) -> bool {
        false
    }

    fn get_local(
        &self,
        _name: &str,
        _reads: &mut u32,
        _this: Object<Self>,
    ) -> Result<Value<Self>, Error<&'static str>> {
        Ok(Value::Null)
    }

    fn call_value(
        _method: Value<Self>,
        _name: &str,
        _reads: &mut u32,
        _this: Object<Self>,
        _base_proto: Option<Object<Self>>,
        _args: &[Value<Self>],
    ) -> Result<Value<Self>, Error<&'static str>> {
        Ok(Value::Null)
    }

    fn undefined_to_object(_reads: &mut u32) -> Object<Self> {
        Object { repr: Computed(9) }
    }
}

impl TObject for Computed {
    type SoundObject = ();
    type StageObject = ();
    type SuperObject = ();
    type DisplayObject = ();
    type Executable = ();
    type XMLNode = ();
    type ValueObject = ();
    type SharedObject = ();
    type DateObject = ();
    type ColorTransformObject = ();
    type TransformObject = ();
    type BlurFilterObject = ();
    type BevelFilterObject = ();

    fn get(&self, name: &str, reads: &mut u32) -> Result<Value<Self>, Error<&'static str>> {
        *reads += 1;
        if name == "prototype" {
            Ok(Value::Object(Object { repr: Computed(self.0 + 1) }))
        } else {
            Ok(Value::Undefined)
        }
    }

    fn call_method(
        &self,
        _name: &str,
        _args: &[Value<Self>],
        _reads: &mut u32,
    ) -> Result<Value<Self>, Error<&'static str>> {
        Ok(Value::Bool(true))
    }
}

#[test]
fn objects_may_be_read_in_their_own_way() {
    let mut reads = 0;
    let instance = Computed(0);
    let stranger = Object { repr: Computed(8) };
    // The interface says that its prototype is 3.
    let found = instance.is_instance_of(&mut reads, stranger, Object { repr: Computed(3) });
    assert!(matches!(found, Ok(true)));
    assert_eq!(reads, 1);
    let found = instance.is_instance_of(&mut reads, stranger, Object { repr: Computed(5) });
    assert!(matches!(found, Ok(false)));
    assert!(matches!(instance.call_method("run", &[], &mut reads), Ok(Value::Bool(true))));
}

#[test]
fn only_objects_can_be_called() {
    assert!(Value::Object(object(0)).is_callable());
    assert!(!Value::<Handle>::Undefined.is_callable());
    assert!(!Value::<Handle>::Null.is_callable());
    assert!(!Value::<Handle>::Bool(true).is_callable());
    assert!(!Value::<Handle>::Number(0).is_callable());
    assert!(!Value::<Handle>::String("f".to_string()).is_callable());
}

#[test]
fn on_finite_chains_prototypes_go_one_way() {
    let heap = heap(chain(5));
    for a in 0..5 {
        assert!(!object(a).repr.is_prototype_of(object(a), &heap));
        for b in 0..5 {
            let up = object(b).repr.is_prototype_of(object(a), &heap);
            let down = object(a).repr.is_prototype_of(object(b), &heap);
            assert_eq!(up, b > a);
            assert!(!(up && down));
        }
    }
}

#[test]
fn objects_that_are_not_met_do_not_matter() {
    let mut entries = classes();
    // The constructor of the other class throws, but nothing leads there.
    entries[5].slots = vec![("prototype", Slot::Throws("no"))];
    let mut heap = heap(entries);
    assert!(matches!(object(0).repr.is_instance_of(&mut heap, object(5), object(4)), Ok(true)));
    assert!(matches!(object(0).repr.is_instance_of(&mut heap, object(5), object(6)), Ok(false)));
}
