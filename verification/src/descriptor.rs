//! The per-type descriptor: derived once at type registration, immutable
//! afterwards, exposing the four facts that key-hash computation and
//! sample-buffer sizing consume — has-key, the declared fixed-size
//! assertion, the forced-digest flag, and the canonical key bytes of an
//! instance.

use vstd::prelude::*;

use crate::encode::encode_key;
use crate::encode::key_encoding;
use crate::holder::DeriveError;
use crate::holder::HolderField;
use crate::holder::KeyHolderSchema;
use crate::holder::SchemaRegistry;
use crate::holder::derivation_ok;
use crate::holder::derive_status;
use crate::holder::fields_var_len;
use crate::holder::registry_wf;
use crate::holder::schema_wf_at;
use crate::schema::StructuredTypeSchema;
use crate::value::InstanceValue;
use crate::value::check_instance;
use crate::value::inst_fits;

verus! {

/// The immutable facts derived for one topic type: the registry
/// snapshot it was derived against (its own holder schema appended
/// last), and the fixed-size declaration asserted by the choice of
/// derivation entry point.
pub struct TopicDescriptor {
    registry: SchemaRegistry,
    top: usize,
    fixed_size: bool,
}

impl TopicDescriptor {
    /// The registry the descriptor holds: every schema it was derived
    /// against, with the type's own holder schema last.
    pub closed spec fn registry_view(self) -> Seq<KeyHolderSchema> {
        self.registry@
    }

    /// The position of the type's own holder schema.
    pub closed spec fn top_index(self) -> int {
        self.top as int
    }

    /// The type's own derived key holder schema.
    pub open spec fn top_schema(self) -> KeyHolderSchema {
        self.registry_view()[self.top_index()]
    }

    /// The fixed-size declaration asserted at registration. It is the
    /// author's claim about the whole type's wire size, independent of
    /// the key's variable-length classification; this subsystem does not
    /// verify it.
    pub closed spec fn fixed_size_spec(self) -> bool {
        self.fixed_size
    }

    pub open spec fn wf(self) -> bool {
        &&& registry_wf(self.registry_view())
        &&& 0 <= self.top_index() < self.registry_view().len()
    }

    /// Whether an instance fits the derived holder schema, so that its
    /// key portion can be encoded.
    pub open spec fn instance_fits(self, inst: InstanceValue) -> bool {
        inst_fits(self.registry_view(), self.top_index(), inst)
    }

    /// The canonical key bytes of an instance under this descriptor.
    pub open spec fn key_encoding_of(self, inst: InstanceValue) -> Seq<u8> {
        key_encoding(self.registry_view(), self.top_index(), inst)
    }

    fn derive_impl(registry: SchemaRegistry, schema: &StructuredTypeSchema, fixed_size: bool) -> (r:
        Result<TopicDescriptor, DeriveError>)
        requires
            registry.wf(),
        ensures
            match r {
                Ok(d) => {
                    &&& derivation_ok(registry@, schema.fields@)
                    &&& d.wf()
                    &&& d.fixed_size_spec() == fixed_size
                    &&& d.registry_view().len() == registry@.len() + 1
                    &&& forall|j: int|
                        0 <= j < registry@.len() ==> d.registry_view()[j] == registry@[j]
                    &&& d.top_index() == registry@.len()
                    &&& d.top_schema().type_id == schema.type_id
                    &&& derive_status(registry@, schema.fields@, schema.fields@.len() as int)
                        == Ok::<Seq<HolderField>, DeriveError>(d.top_schema().fields@)
                    &&& d.top_schema().variable_length == fields_var_len(
                        d.registry_view(),
                        d.top_index(),
                        0,
                    )
                },
                Err(e) => {
                    &&& !derivation_ok(registry@, schema.fields@)
                    &&& derive_status(registry@, schema.fields@, schema.fields@.len() as int)
                        == Err::<Seq<HolderField>, DeriveError>(e)
                },
            },
    {
        let mut reg = registry;
        let top = reg.len();
        match reg.register(schema) {
            Ok(()) => Ok(TopicDescriptor { registry: reg, top, fixed_size }),
            Err(e) => Err(e),
        }
    }

    /// Derives the descriptor for `schema` against the registered nested
    /// schemas, making no fixed-size assertion. Succeeds exactly when
    /// every key-marked field resolves; otherwise the first offending
    /// field's error is handed back.
    pub fn derive(registry: SchemaRegistry, schema: &StructuredTypeSchema) -> (r: Result<
        TopicDescriptor,
        DeriveError,
    >)
        requires
            registry.wf(),
        ensures
            match r {
                Ok(d) => {
                    &&& derivation_ok(registry@, schema.fields@)
                    &&& d.wf()
                    &&& d.fixed_size_spec() == false
                    &&& d.registry_view().len() == registry@.len() + 1
                    &&& forall|j: int|
                        0 <= j < registry@.len() ==> d.registry_view()[j] == registry@[j]
                    &&& d.top_index() == registry@.len()
                    &&& d.top_schema().type_id == schema.type_id
                    &&& derive_status(registry@, schema.fields@, schema.fields@.len() as int)
                        == Ok::<Seq<HolderField>, DeriveError>(d.top_schema().fields@)
                },
                Err(e) => {
                    &&& !derivation_ok(registry@, schema.fields@)
                    &&& derive_status(registry@, schema.fields@, schema.fields@.len() as int)
                        == Err::<Seq<HolderField>, DeriveError>(e)
                },
            },
    {
        Self::derive_impl(registry, schema, false)
    }

    /// Derives the descriptor for `schema`, asserting that the whole
    /// type's encoding is fixed-size. The assertion is recorded as
    /// stated; it is not checked against the key's own classification.
    pub fn derive_fixed_size(registry: SchemaRegistry, schema: &StructuredTypeSchema) -> (r: Result<
        TopicDescriptor,
        DeriveError,
    >)
        requires
            registry.wf(),
        ensures
            match r {
                Ok(d) => {
                    &&& derivation_ok(registry@, schema.fields@)
                    &&& d.wf()
                    &&& d.fixed_size_spec() == true
                    &&& d.registry_view().len() == registry@.len() + 1
                    &&& forall|j: int|
                        0 <= j < registry@.len() ==> d.registry_view()[j] == registry@[j]
                    &&& d.top_index() == registry@.len()
                    &&& d.top_schema().type_id == schema.type_id
                    &&& derive_status(registry@, schema.fields@, schema.fields@.len() as int)
                        == Ok::<Seq<HolderField>, DeriveError>(d.top_schema().fields@)
                },
                Err(e) => {
                    &&& !derivation_ok(registry@, schema.fields@)
                    &&& derive_status(registry@, schema.fields@, schema.fields@.len() as int)
                        == Err::<Seq<HolderField>, DeriveError>(e)
                },
            },
    {
        Self::derive_impl(registry, schema, true)
    }

    /// Whether the type has a key: true exactly when the derived holder
    /// schema has at least one field.
    pub fn has_key(&self) -> (r: bool)
        requires
            self.wf(),
        ensures
            r == (self.top_schema().fields@.len() > 0),
    {
        self.registry.schema_at(self.top).fields.len() > 0
    }

    /// The fixed-size declaration asserted at registration.
    pub fn is_fixed_size(&self) -> (r: bool)
        ensures
            r == self.fixed_size_spec(),
    {
        self.fixed_size
    }

    /// Whether the key encoding can vary in length across instances, in
    /// which case downstream key-hash policy must apply a digest: true
    /// exactly when some key field is a direct dynamic-length type or
    /// references a nested key holder that is itself variable.
    pub fn force_digest_key_hash(&self) -> (r: bool)
        requires
            self.wf(),
        ensures
            r == fields_var_len(self.registry_view(), self.top_index(), 0),
    {
        proof {
            assert(schema_wf_at(self.registry_view(), self.top_index()));
        }
        self.registry.schema_at(self.top).variable_length
    }

    /// Whether the declarations contradict each other: the type was
    /// registered as fixed-size while its key encoding is classified as
    /// variable in length. A warning for the caller, not an error; the
    /// two facts are recorded independently.
    pub fn conflicting_declaration(&self) -> (r: bool)
        requires
            self.wf(),
        ensures
            r == (self.fixed_size_spec() && fields_var_len(
                self.registry_view(),
                self.top_index(),
                0,
            )),
    {
        let digest = self.force_digest_key_hash();
        self.fixed_size && digest
    }

    /// Whether an instance fits the derived holder schema: true exactly
    /// when `key_bytes` accepts it.
    pub fn instance_conforms(&self, inst: &InstanceValue) -> (r: bool)
        requires
            self.wf(),
        ensures
            r == self.instance_fits(*inst),
    {
        check_instance(&self.registry, self.top, inst)
    }

    /// The canonical key bytes of an instance: the 4-byte big-endian
    /// plain CDR encapsulation header, then the key fields encoded in
    /// key declaration order. A pure function of the descriptor and the
    /// instance's key field values; a fresh buffer is allocated per
    /// call.
    pub fn key_bytes(&self, inst: &InstanceValue) -> (out: Vec<u8>)
        requires
            self.wf(),
            self.instance_fits(*inst),
        ensures
            out@ == self.key_encoding_of(*inst),
    {
        encode_key(&self.registry, self.top, inst)
    }
}

} // verus!
