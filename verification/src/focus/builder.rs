use vstd::prelude::*;
use crate::focus::FocusTarget;

verus! {

/// Collects a page's focus targets in order.
#[derive(Debug)]
pub struct PageFocusBuilder<O = ()> {
    targets: Vec<FocusTarget<O>>,
    section_items: Vec<(usize, usize)>,
}

impl<O> PageFocusBuilder<O> {
    /// The targets collected so far, in order.
    pub closed spec fn targets_spec(&self) -> Seq<FocusTarget<O>> {
        self.targets@
    }

    /// The `(section_id, item_count)` pairs collected so far.
    pub closed spec fn section_items_spec(&self) -> Seq<(usize, usize)> {
        self.section_items@
    }

    pub fn new() -> (r: Self)
        ensures
            r.targets_spec() == Seq::<FocusTarget<O>>::empty(),
            r.section_items_spec() == Seq::<(usize, usize)>::empty(),
    {
        PageFocusBuilder { targets: Vec::new(), section_items: Vec::new() }
    }

    /// Appends canvas fields `0..count`.
    pub fn canvas_fields(self, count: usize) -> (r: Self)
        ensures
            r.targets_spec() == self.targets_spec() + Seq::new(
                count as nat,
                |i: int| FocusTarget::<O>::CanvasField(i as usize),
            ),
            r.section_items_spec() == self.section_items_spec(),
    {
        let mut this = self;
        let ghost start = this.targets@;
        let mut index: usize = 0;
        while index < count
            invariant
                index <= count,
                this.section_items@ == self.section_items@,
                this.targets@ == start + Seq::new(
                    index as nat,
                    |i: int| FocusTarget::<O>::CanvasField(i as usize),
                ),
            decreases count - index,
        {
            this.targets.push(FocusTarget::CanvasField(index));
            index = index + 1;
            assert(this.targets@ =~= start + Seq::new(
                index as nat,
                |i: int| FocusTarget::<O>::CanvasField(i as usize),
            ));
        }
        this
    }

    pub fn canvas_field(self, index: usize) -> (r: Self)
        ensures
            r.targets_spec() == self.targets_spec().push(FocusTarget::CanvasField(index)),
            r.section_items_spec() == self.section_items_spec(),
    {
        self.target(FocusTarget::CanvasField(index))
    }

    pub fn internal_canvas_field(self, index: usize) -> (r: Self)
        ensures
            r.targets_spec() == self.targets_spec().push(FocusTarget::InternalCanvasField(index)),
            r.section_items_spec() == self.section_items_spec(),
    {
        self.target(FocusTarget::InternalCanvasField(index))
    }

    pub fn button(self, index: usize) -> (r: Self)
        ensures
            r.targets_spec() == self.targets_spec().push(FocusTarget::Button(index)),
            r.section_items_spec() == self.section_items_spec(),
    {
        self.target(FocusTarget::Button(index))
    }

    /// Appends one button per index, in order.
    pub fn buttons(self, indices: &[usize]) -> (r: Self)
        ensures
            r.targets_spec() == self.targets_spec() + Seq::new(
                indices@.len(),
                |i: int| FocusTarget::<O>::Button(indices@[i]),
            ),
            r.section_items_spec() == self.section_items_spec(),
    {
        let mut this = self;
        let ghost start = this.targets@;
        let mut k: usize = 0;
        while k < indices.len()
            invariant
                k <= indices@.len(),
                this.section_items@ == self.section_items@,
                this.targets@ == start + Seq::new(
                    k as nat,
                    |i: int| FocusTarget::<O>::Button(indices@[i]),
                ),
            decreases indices@.len() - k,
        {
            this.targets.push(FocusTarget::Button(indices[k]));
            k = k + 1;
            assert(this.targets@ =~= start + Seq::new(
                k as nat,
                |i: int| FocusTarget::<O>::Button(indices@[i]),
            ));
        }
        this
    }

    pub fn section(self, id: usize) -> (r: Self)
        ensures
            r.targets_spec() == self.targets_spec().push(FocusTarget::Section(id)),
            r.section_items_spec() == self.section_items_spec(),
    {
        self.target(FocusTarget::Section(id))
    }

    /// A section the runtime can enter on its own: records its item count.
    pub fn section_with_items(self, id: usize, item_count: usize) -> (r: Self)
        ensures
            r.targets_spec() == self.targets_spec().push(FocusTarget::Section(id)),
            r.section_items_spec() == self.section_items_spec().push((id, item_count)),
    {
        let mut this = self;
        this.targets.push(FocusTarget::Section(id));
        this.section_items.push((id, item_count));
        this
    }

    pub fn target(self, target: FocusTarget<O>) -> (r: Self)
        ensures
            r.targets_spec() == self.targets_spec().push(target),
            r.section_items_spec() == self.section_items_spec(),
    {
        let mut this = self;
        this.targets.push(target);
        this
    }

    pub fn build(self) -> (r: Vec<FocusTarget<O>>)
        ensures
            r@ == self.targets_spec(),
    {
        self.targets
    }

    /// The targets and the `(section_id, item_count)` pairs.
    pub fn into_parts(self) -> (r: (Vec<FocusTarget<O>>, Vec<(usize, usize)>))
        ensures
            r.0@ == self.targets_spec(),
            r.1@ == self.section_items_spec(),
    {
        (self.targets, self.section_items)
    }
}

impl<O> Default for PageFocusBuilder<O> {
    fn default() -> (r: Self)
        ensures
            r.targets_spec() == Seq::<FocusTarget<O>>::empty(),
            r.section_items_spec() == Seq::<(usize, usize)>::empty(),
    {
        Self::new()
    }
}

} // verus!
