//! The items of `egui` that the frame logic rests on. Nothing in this file is
//! proved: each contract restates what the `egui` sources show.

use vstd::prelude::*;
use crate::pending::TextureKey;

verus! {

/// `egui::TextureId`, carried through untouched.
#[verifier::external_type_specification]
#[verifier::external_body]
pub struct ExTextureId(egui::TextureId);

/// `egui::epaint::ImageDelta`, carried through untouched.
#[verifier::external_type_specification]
#[verifier::external_body]
pub struct ExImageDelta(egui::epaint::ImageDelta);

/// `egui::epaint::ClippedShape`, carried through untouched.
#[verifier::external_type_specification]
#[verifier::external_body]
pub struct ExClippedShape(egui::epaint::ClippedShape);

/// `egui::ClippedPrimitive`, carried through untouched.
#[verifier::external_type_specification]
#[verifier::external_body]
pub struct ExClippedPrimitive(egui::ClippedPrimitive);

/// `egui::TexturesDelta`, the texture uploads and releases of one UI frame.
#[verifier::external_type_specification]
#[verifier::external_body]
pub struct ExTexturesDelta(egui::TexturesDelta);

/// The `set` list of a `TexturesDelta`: textures to create or update, in order.
pub uninterp spec fn delta_set(delta: egui::TexturesDelta) -> Seq<(egui::TextureId, egui::epaint::ImageDelta)>;

/// The `free` list of a `TexturesDelta`: textures to release, in order.
pub uninterp spec fn delta_free(delta: egui::TexturesDelta) -> Seq<egui::TextureId>;

/// The variant of a `TextureId` and the number it holds.
pub uninterp spec fn texture_key(id: egui::TextureId) -> TextureKey;

/// Whether an `ImageDelta` replaces the whole texture: its `pos` is `None`.
pub uninterp spec fn delta_is_whole(delta: egui::epaint::ImageDelta) -> bool;

/// Moves the two public fields `set` and `free` out of a `TexturesDelta`.
#[verifier::external_body]
pub(crate) fn delta_into_parts(delta: egui::TexturesDelta) -> (parts: (
    Vec<(egui::TextureId, egui::epaint::ImageDelta)>,
    Vec<egui::TextureId>,
))
    ensures
        parts.0@ == delta_set(delta),
        parts.1@ == delta_free(delta),
{
    (delta.set, delta.free)
}

/// Reads a `TextureId`: which of its two variants it is, and the number in it.
#[verifier::external_body]
pub(crate) fn key_of(id: &egui::TextureId) -> (key: TextureKey)
    ensures
        key == texture_key(*id),
{
    match id {
        egui::TextureId::Managed(number) => TextureKey::Managed(*number),
        egui::TextureId::User(number) => TextureKey::User(*number),
    }
}

/// `ImageDelta::is_whole`: true where the delta replaces the whole texture,
/// false where it patches a region of it.
#[verifier::external_body]
pub(crate) fn is_whole(delta: &egui::epaint::ImageDelta) -> (whole: bool)
    ensures
        whole == delta_is_whole(*delta),
{
    delta.is_whole()
}

} // verus!
